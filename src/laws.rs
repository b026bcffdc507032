use vstd::prelude::*;

use crate::ast::{AssignmentModel, ExpressionModel, IdentifierModel, ProgramModel};
use crate::error::{ErrorModel, MAX_NESTING};
use crate::model::{
    assignment_result, block_from, block_result, expression_result, expressions_from,
    function_call_result, function_definition_result, identifier_result, identifiers_from,
    number_result, prepend, prepend_run, program_items_from, program_result,
};
use crate::number::i64_of_text;
use crate::occurrence::{Occurrence, RuleKind, Span};

verus! {

broadcast use {vstd::seq::group_seq_axioms, vstd::std_specs::vec::group_vec_axioms};

/// The text of `source` that `s` covers.
pub open spec fn covered(source: Seq<char>, s: Span) -> Seq<char> {
    source.subrange(s.start as int, s.end as int)
}

/// `s` lies in `source` and inside `outer`.
pub open spec fn placed(s: Span, source: Seq<char>, outer: Span) -> bool {
    s.within(source.len() as int) && s.inside(outer)
}

/// The identifier lies inside `outer` and its name is the source text it covers.
pub open spec fn identifier_fits(i: IdentifierModel, source: Seq<char>, outer: Span) -> bool {
    placed(i.span, source, outer) && i.name == covered(source, i.span)
}

/// The expression lies inside `outer`, each node inside its parent; names are
/// the source text they cover, and numbers the value written there.
pub open spec fn expression_fits(e: ExpressionModel, source: Seq<char>, outer: Span) -> bool
    decreases e,
{
    match e {
        ExpressionModel::Number(n) => placed(n.span, source, outer) && i64_of_text(
            covered(source, n.span),
        ) == Some(n.value),
        ExpressionModel::Identifier(i) => identifier_fits(i, source, outer),
        ExpressionModel::FunctionCall(c) => {
            &&& placed(c.span, source, outer)
            &&& identifier_fits(c.function_name, source, c.span)
            &&& forall|k: int|
                0 <= k < c.arguments.len() ==> expression_fits(
                    #[trigger] c.arguments[k],
                    source,
                    c.span,
                )
        },
        ExpressionModel::FunctionDefinition(d) => {
            &&& placed(d.span, source, outer)
            &&& forall|k: int|
                0 <= k < d.parameters.len() ==> identifier_fits(
                    #[trigger] d.parameters[k],
                    source,
                    d.span,
                )
            &&& expression_fits(*d.body, source, d.span)
        },
        ExpressionModel::Block(b) => {
            &&& placed(b.span, source, outer)
            &&& forall|k: int|
                0 <= k < b.assignments.len() ==> assignment_fits(
                    #[trigger] b.assignments[k],
                    source,
                    b.span,
                )
            &&& expression_fits(*b.expression, source, b.span)
        },
    }
}

/// The assignment lies inside `outer`, and its parts inside it.
pub open spec fn assignment_fits(a: AssignmentModel, source: Seq<char>, outer: Span) -> bool
    decreases a,
{
    &&& placed(a.span, source, outer)
    &&& identifier_fits(a.identifier, source, a.span)
    &&& expression_fits(*a.expression, source, a.span)
}

/// The program lies in `source`, and every node of it inside its parent.
pub open spec fn program_fits(p: ProgramModel, source: Seq<char>) -> bool {
    &&& p.span.within(source.len() as int)
    &&& forall|k: int|
        0 <= k < p.assignments.len() ==> assignment_fits(
            #[trigger] p.assignments[k],
            source,
            p.span,
        )
}

proof fn lemma_expression_fits_widen(e: ExpressionModel, source: Seq<char>, s1: Span, s2: Span)
    requires
        expression_fits(e, source, s1),
        s1.inside(s2),
    ensures
        expression_fits(e, source, s2),
{
}

proof fn lemma_identifier_fits(o: Occurrence, source: Seq<char>)
    requires
        o.fits(source),
        identifier_result(o) is Ok,
    ensures
        identifier_fits(identifier_result(o)->Ok_0, source, o.span),
{
}

proof fn lemma_identifiers_fit(l: Occurrence, i: int, source: Seq<char>)
    requires
        l.fits(source),
        identifiers_from(l, i) is Ok,
    ensures
        forall|k: int|
            0 <= k < (identifiers_from(l, i)->Ok_0).len() ==> identifier_fits(
                #[trigger] (identifiers_from(l, i)->Ok_0)[k],
                source,
                l.span,
            ),
    decreases l.children.len() - i,
{
    if 0 <= i < l.children.len() {
        let c = l.children[i];
        assert(c.fits(source));
        lemma_identifier_fits(c, source);
        lemma_identifiers_fit(l, i + 1, source);
    }
}

proof fn lemma_expression_fits(o: Occurrence, source: Seq<char>, budget: nat)
    requires
        o.fits(source),
        expression_result(o, budget) is Ok,
    ensures
        expression_fits(expression_result(o, budget)->Ok_0, source, o.span),
    decreases o, 0int,
{
    let c = o.children[0];
    assert(c.fits(source));
    match c.rule {
        RuleKind::Number => {},
        RuleKind::Identifier => lemma_identifier_fits(c, source),
        RuleKind::FunctionCall => lemma_function_call_fits(c, source, (budget - 1) as nat),
        RuleKind::FunctionDefinition => lemma_function_definition_fits(
            c,
            source,
            (budget - 1) as nat,
        ),
        RuleKind::Block => lemma_block_fits(c, source, (budget - 1) as nat),
        _ => {},
    }
}

proof fn lemma_expressions_fit(a: Occurrence, i: int, source: Seq<char>, budget: nat)
    requires
        a.fits(source),
        expressions_from(a, i, budget) is Ok,
    ensures
        forall|k: int|
            0 <= k < (expressions_from(a, i, budget)->Ok_0).len() ==> expression_fits(
                #[trigger] (expressions_from(a, i, budget)->Ok_0)[k],
                source,
                a.span,
            ),
    decreases a, a.children.len() - i,
{
    if 0 <= i < a.children.len() {
        let c = a.children[i];
        assert(c.fits(source));
        lemma_expression_fits(c, source, budget);
        lemma_expressions_fit(a, i + 1, source, budget);
    }
}

proof fn lemma_function_call_fits(o: Occurrence, source: Seq<char>, budget: nat)
    requires
        o.fits(source),
        function_call_result(o, budget) is Ok,
    ensures
        expression_fits(
            ExpressionModel::FunctionCall(function_call_result(o, budget)->Ok_0),
            source,
            o.span,
        ),
    decreases o, 0int,
{
    assert(o.children[0].fits(source));
    lemma_identifier_fits(o.children[0], source);
    if o.children.len() > 1 {
        let a = o.children[1];
        assert(a.fits(source));
        lemma_expressions_fit(a, 0, source, budget);
        let args = expressions_from(a, 0, budget)->Ok_0;
        assert forall|k: int| 0 <= k < args.len() implies expression_fits(
            #[trigger] args[k],
            source,
            o.span,
        ) by {
            lemma_expression_fits_widen(args[k], source, a.span, o.span);
        }
    }
}

proof fn lemma_function_definition_fits(o: Occurrence, source: Seq<char>, budget: nat)
    requires
        o.fits(source),
        function_definition_result(o, budget) is Ok,
    ensures
        expression_fits(
            ExpressionModel::FunctionDefinition(function_definition_result(o, budget)->Ok_0),
            source,
            o.span,
        ),
    decreases o, 0int,
{
    assert(o.children[0].fits(source));
    if o.children[0].rule == RuleKind::IdentList {
        let l = o.children[0];
        lemma_identifiers_fit(l, 0, source);
        let params = identifiers_from(l, 0)->Ok_0;
        assert forall|k: int| 0 <= k < params.len() implies identifier_fits(
            #[trigger] params[k],
            source,
            o.span,
        ) by {
            assert(identifier_fits(params[k], source, l.span));
        }
        assert(o.children[1].fits(source));
        lemma_expression_fits(o.children[1], source, budget);
        lemma_expression_fits_widen(
            expression_result(o.children[1], budget)->Ok_0,
            source,
            o.children[1].span,
            o.span,
        );
    } else {
        lemma_expression_fits(o.children[0], source, budget);
        lemma_expression_fits_widen(
            expression_result(o.children[0], budget)->Ok_0,
            source,
            o.children[0].span,
            o.span,
        );
    }
}

proof fn lemma_block_from_fits(o: Occurrence, i: int, source: Seq<char>, budget: nat)
    requires
        o.fits(source),
        block_from(o, i, budget) is Ok,
    ensures
        forall|k: int|
            0 <= k < (block_from(o, i, budget)->Ok_0).0.len() ==> assignment_fits(
                #[trigger] (block_from(o, i, budget)->Ok_0).0[k],
                source,
                o.span,
            ),
        expression_fits((block_from(o, i, budget)->Ok_0).1, source, o.span),
    decreases o, o.children.len() - i,
{
    let c = o.children[i];
    assert(c.fits(source));
    if c.rule == RuleKind::Assignment {
        lemma_assignment_fits(c, source, budget);
        lemma_block_from_fits(o, i + 1, source, budget);
    } else {
        lemma_expression_fits(c, source, budget);
    }
}

proof fn lemma_block_fits(o: Occurrence, source: Seq<char>, budget: nat)
    requires
        o.fits(source),
        block_result(o, budget) is Ok,
    ensures
        expression_fits(ExpressionModel::Block(block_result(o, budget)->Ok_0), source, o.span),
    decreases o, o.children.len() + 1,
{
    lemma_block_from_fits(o, 0, source, budget);
}

proof fn lemma_assignment_fits(o: Occurrence, source: Seq<char>, budget: nat)
    requires
        o.fits(source),
        assignment_result(o, budget) is Ok,
    ensures
        assignment_fits(assignment_result(o, budget)->Ok_0, source, o.span),
    decreases o, 0int,
{
    assert(o.children[0].fits(source));
    assert(o.children[1].fits(source));
    lemma_identifier_fits(o.children[0], source);
    lemma_expression_fits(o.children[1], source, budget);
}

proof fn lemma_program_items_fit(p: Occurrence, i: int, source: Seq<char>)
    requires
        p.fits(source),
        program_items_from(p, i) is Ok,
    ensures
        forall|k: int|
            0 <= k < (program_items_from(p, i)->Ok_0).len() ==> assignment_fits(
                #[trigger] (program_items_from(p, i)->Ok_0)[k],
                source,
                p.span,
            ),
    decreases p.children.len() - i,
{
    if 0 <= i < p.children.len() {
        let c = p.children[i];
        assert(c.fits(source));
        lemma_assignment_fits(c, source, MAX_NESTING as nat);
        lemma_program_items_fit(p, i + 1, source);
    }
}

/// Spans reproduce the source: when the grammar engine's occurrences match
/// exactly the text their spans cover, every node of the program built from
/// them lies in the source inside its parent, every identifier's name is the
/// source text its span covers, and every number's value is the integer
/// written there.
pub proof fn lemma_spans_reproduce_source(source: Seq<char>, top: Seq<Occurrence>)
    requires
        forall|i: int| 0 <= i < top.len() ==> (#[trigger] top[i]).fits(source),
        program_result(top) is Ok,
    ensures
        program_fits(program_result(top)->Ok_0, source),
{
    assert(top[0].fits(source));
    lemma_program_items_fit(top[0], 0, source);
}

/// The two occurrence trees differ at most in their spans.
pub open spec fn same_shape(o1: Occurrence, o2: Occurrence) -> bool
    decreases o1,
{
    &&& o1.rule == o2.rule
    &&& o1.text@ == o2.text@
    &&& o1.children.len() == o2.children.len()
    &&& forall|i: int|
        0 <= i < o1.children.len() ==> same_shape(#[trigger] o1.children[i], o2.children[i])
}

/// The two expressions differ at most in their spans.
pub open spec fn expression_alike(e1: ExpressionModel, e2: ExpressionModel) -> bool
    decreases e1,
{
    match (e1, e2) {
        (ExpressionModel::Number(a), ExpressionModel::Number(b)) => a.value == b.value,
        (ExpressionModel::Identifier(a), ExpressionModel::Identifier(b)) => a.name == b.name,
        (ExpressionModel::FunctionCall(a), ExpressionModel::FunctionCall(b)) => {
            &&& a.function_name.name == b.function_name.name
            &&& a.arguments.len() == b.arguments.len()
            &&& forall|k: int|
                0 <= k < a.arguments.len() ==> expression_alike(
                    #[trigger] a.arguments[k],
                    b.arguments[k],
                )
        },
        (ExpressionModel::FunctionDefinition(a), ExpressionModel::FunctionDefinition(b)) => {
            &&& a.parameters.len() == b.parameters.len()
            &&& forall|k: int|
                0 <= k < a.parameters.len() ==> (#[trigger] a.parameters[k]).name
                    == b.parameters[k].name
            &&& expression_alike(*a.body, *b.body)
        },
        (ExpressionModel::Block(a), ExpressionModel::Block(b)) => {
            &&& a.assignments.len() == b.assignments.len()
            &&& forall|k: int|
                0 <= k < a.assignments.len() ==> assignment_alike(
                    #[trigger] a.assignments[k],
                    b.assignments[k],
                )
            &&& expression_alike(*a.expression, *b.expression)
        },
        _ => false,
    }
}

/// The two assignments differ at most in their spans.
pub open spec fn assignment_alike(a1: AssignmentModel, a2: AssignmentModel) -> bool
    decreases a1,
{
    a1.identifier.name == a2.identifier.name && expression_alike(*a1.expression, *a2.expression)
}

/// The two errors differ at most in their spans.
pub open spec fn error_alike(e1: ErrorModel, e2: ErrorModel) -> bool {
    match (e1, e2) {
        (
            ErrorModel::RuleMismatch { expected: x1, actual: a1, text: t1, .. },
            ErrorModel::RuleMismatch { expected: x2, actual: a2, text: t2, .. },
        ) => x1 == x2 && a1 == a2 && t1 == t2,
        (
            ErrorModel::UnexpectedRule { actual: a1, text: t1, .. },
            ErrorModel::UnexpectedRule { actual: a2, text: t2, .. },
        ) => a1 == a2 && t1 == t2,
        (
            ErrorModel::MissingChild { context: c1 },
            ErrorModel::MissingChild { context: c2 },
        ) => c1 == c2,
        (
            ErrorModel::StructuralError { problem: p1, actual: a1, text: t1, .. },
            ErrorModel::StructuralError { problem: p2, actual: a2, text: t2, .. },
        ) => p1 == p2 && a1 == a2 && t1 == t2,
        (
            ErrorModel::NumericConversion { text: t1, .. },
            ErrorModel::NumericConversion { text: t2, .. },
        ) => t1 == t2,
        (ErrorModel::TopLevelArity { found: f1 }, ErrorModel::TopLevelArity { found: f2 }) => f1
            == f2,
        (ErrorModel::NestingTooDeep { .. }, ErrorModel::NestingTooDeep { .. }) => true,
        _ => false,
    }
}

/// Both outcomes fail, with errors that differ at most in their spans.
pub open spec fn fail_alike<A>(r1: Result<A, ErrorModel>, r2: Result<A, ErrorModel>) -> bool {
    r1 is Err && r2 is Err && error_alike(r1->Err_0, r2->Err_0)
}

/// The two sequences of expressions differ at most in their spans.
pub open spec fn expressions_alike(s1: Seq<ExpressionModel>, s2: Seq<ExpressionModel>) -> bool {
    s1.len() == s2.len() && forall|k: int|
        0 <= k < s1.len() ==> expression_alike(#[trigger] s1[k], s2[k])
}

/// The two sequences of assignments differ at most in their spans.
pub open spec fn assignments_alike(s1: Seq<AssignmentModel>, s2: Seq<AssignmentModel>) -> bool {
    s1.len() == s2.len() && forall|k: int|
        0 <= k < s1.len() ==> assignment_alike(#[trigger] s1[k], s2[k])
}

/// The two sequences of identifiers hold the same names.
pub open spec fn names_alike(s1: Seq<IdentifierModel>, s2: Seq<IdentifierModel>) -> bool {
    s1.len() == s2.len() && forall|k: int|
        0 <= k < s1.len() ==> (#[trigger] s1[k]).name == s2[k].name
}

/// The two programs differ at most in their spans.
pub open spec fn program_alike(p1: ProgramModel, p2: ProgramModel) -> bool {
    assignments_alike(p1.assignments, p2.assignments)
}

proof fn lemma_identifier_alike(o1: Occurrence, o2: Occurrence)
    requires
        same_shape(o1, o2),
    ensures
        ({
            let (r1, r2) = (identifier_result(o1), identifier_result(o2));
            fail_alike(r1, r2) || (r1 is Ok && r2 is Ok && (r1->Ok_0).name == (r2->Ok_0).name)
        }),
{
}

proof fn lemma_identifiers_alike(l1: Occurrence, l2: Occurrence, i: int)
    requires
        same_shape(l1, l2),
    ensures
        ({
            let (r1, r2) = (identifiers_from(l1, i), identifiers_from(l2, i));
            fail_alike(r1, r2) || (r1 is Ok && r2 is Ok && names_alike(r1->Ok_0, r2->Ok_0))
        }),
    decreases l1.children.len() - i,
{
    if 0 <= i < l1.children.len() {
        assert(same_shape(l1.children[i], l2.children[i]));
        lemma_identifier_alike(l1.children[i], l2.children[i]);
        lemma_identifiers_alike(l1, l2, i + 1);
        if identifiers_from(l1, i) is Ok && identifiers_from(l2, i) is Ok {
            let a = identifiers_from(l1, i + 1)->Ok_0;
            let b = identifiers_from(l2, i + 1)->Ok_0;
            let s1 = identifiers_from(l1, i)->Ok_0;
            let s2 = identifiers_from(l2, i)->Ok_0;
            assert forall|k: int|
                0 <= k < s1.len() implies (#[trigger] s1[k]).name == s2[k].name by {
                if k > 0 {
                    assert(s1[k] == a[k - 1]);
                    assert(s2[k] == b[k - 1]);
                }
            }
        }
    }
}

proof fn lemma_expression_alike(o1: Occurrence, o2: Occurrence, budget: nat)
    requires
        same_shape(o1, o2),
    ensures
        ({
            let (r1, r2) = (expression_result(o1, budget), expression_result(o2, budget));
            fail_alike(r1, r2) || (r1 is Ok && r2 is Ok && expression_alike(r1->Ok_0, r2->Ok_0))
        }),
    decreases o1, 0int,
{
    if budget > 0 && o1.rule == RuleKind::Expression && o1.children.len() == 1 {
        let c1 = o1.children[0];
        let c2 = o2.children[0];
        assert(same_shape(c1, c2));
        match c1.rule {
            RuleKind::Identifier => lemma_identifier_alike(c1, c2),
            RuleKind::FunctionCall => lemma_function_call_alike(c1, c2, (budget - 1) as nat),
            RuleKind::FunctionDefinition => lemma_function_definition_alike(
                c1,
                c2,
                (budget - 1) as nat,
            ),
            RuleKind::Block => lemma_block_alike(c1, c2, (budget - 1) as nat),
            _ => {},
        }
    }
}

proof fn lemma_expressions_alike(a1: Occurrence, a2: Occurrence, i: int, budget: nat)
    requires
        same_shape(a1, a2),
    ensures
        ({
            let (r1, r2) = (expressions_from(a1, i, budget), expressions_from(a2, i, budget));
            fail_alike(r1, r2) || (r1 is Ok && r2 is Ok && expressions_alike(r1->Ok_0, r2->Ok_0))
        }),
    decreases a1, a1.children.len() - i,
{
    if 0 <= i < a1.children.len() {
        assert(same_shape(a1.children[i], a2.children[i]));
        lemma_expression_alike(a1.children[i], a2.children[i], budget);
        lemma_expressions_alike(a1, a2, i + 1, budget);
        if expressions_from(a1, i, budget) is Ok && expressions_from(a2, i, budget) is Ok {
            let a = expressions_from(a1, i + 1, budget)->Ok_0;
            let b = expressions_from(a2, i + 1, budget)->Ok_0;
            let s1 = expressions_from(a1, i, budget)->Ok_0;
            let s2 = expressions_from(a2, i, budget)->Ok_0;
            assert forall|k: int| 0 <= k < s1.len() implies expression_alike(
                #[trigger] s1[k],
                s2[k],
            ) by {
                if k > 0 {
                    assert(s1[k] == a[k - 1]);
                    assert(s2[k] == b[k - 1]);
                }
            }
        }
    }
}

proof fn lemma_function_call_alike(o1: Occurrence, o2: Occurrence, budget: nat)
    requires
        same_shape(o1, o2),
    ensures
        ({
            let (r1, r2) = (function_call_result(o1, budget), function_call_result(o2, budget));
            fail_alike(r1, r2) || (r1 is Ok && r2 is Ok && expression_alike(
                ExpressionModel::FunctionCall(r1->Ok_0),
                ExpressionModel::FunctionCall(r2->Ok_0),
            ))
        }),
    decreases o1, 0int,
{
    if o1.children.len() > 0 {
        assert(same_shape(o1.children[0], o2.children[0]));
        lemma_identifier_alike(o1.children[0], o2.children[0]);
    }
    if o1.children.len() > 1 {
        assert(same_shape(o1.children[1], o2.children[1]));
        lemma_expressions_alike(o1.children[1], o2.children[1], 0, budget);
    }
}

proof fn lemma_function_definition_alike(o1: Occurrence, o2: Occurrence, budget: nat)
    requires
        same_shape(o1, o2),
    ensures
        ({
            let r1 = function_definition_result(o1, budget);
            let r2 = function_definition_result(o2, budget);
            fail_alike(r1, r2) || (r1 is Ok && r2 is Ok && expression_alike(
                ExpressionModel::FunctionDefinition(r1->Ok_0),
                ExpressionModel::FunctionDefinition(r2->Ok_0),
            ))
        }),
    decreases o1, 0int,
{
    if o1.children.len() > 0 {
        assert(same_shape(o1.children[0], o2.children[0]));
        lemma_identifiers_alike(o1.children[0], o2.children[0], 0);
        lemma_expression_alike(o1.children[0], o2.children[0], budget);
    }
    if o1.children.len() > 1 {
        assert(same_shape(o1.children[1], o2.children[1]));
        lemma_expression_alike(o1.children[1], o2.children[1], budget);
    }
}

proof fn lemma_block_from_alike(o1: Occurrence, o2: Occurrence, i: int, budget: nat)
    requires
        same_shape(o1, o2),
    ensures
        ({
            let (r1, r2) = (block_from(o1, i, budget), block_from(o2, i, budget));
            fail_alike(r1, r2) || (r1 is Ok && r2 is Ok && assignments_alike(
                (r1->Ok_0).0,
                (r2->Ok_0).0,
            ) && expression_alike((r1->Ok_0).1, (r2->Ok_0).1))
        }),
    decreases o1, o1.children.len() - i,
{
    if 0 <= i < o1.children.len() {
        assert(same_shape(o1.children[i], o2.children[i]));
        if i + 1 < o1.children.len() {
            assert(same_shape(o1.children[i + 1], o2.children[i + 1]));
        }
        if o1.children[i].rule == RuleKind::Assignment {
            lemma_assignment_alike(o1.children[i], o2.children[i], budget);
            lemma_block_from_alike(o1, o2, i + 1, budget);
            if block_from(o1, i, budget) is Ok && block_from(o2, i, budget) is Ok {
                let a = (block_from(o1, i + 1, budget)->Ok_0).0;
                let b = (block_from(o2, i + 1, budget)->Ok_0).0;
                let s1 = (block_from(o1, i, budget)->Ok_0).0;
                let s2 = (block_from(o2, i, budget)->Ok_0).0;
                assert forall|k: int| 0 <= k < s1.len() implies assignment_alike(
                    #[trigger] s1[k],
                    s2[k],
                ) by {
                    if k > 0 {
                        assert(s1[k] == a[k - 1]);
                        assert(s2[k] == b[k - 1]);
                    }
                }
            }
        } else {
            lemma_expression_alike(o1.children[i], o2.children[i], budget);
        }
    }
}

proof fn lemma_block_alike(o1: Occurrence, o2: Occurrence, budget: nat)
    requires
        same_shape(o1, o2),
    ensures
        ({
            let (r1, r2) = (block_result(o1, budget), block_result(o2, budget));
            fail_alike(r1, r2) || (r1 is Ok && r2 is Ok && expression_alike(
                ExpressionModel::Block(r1->Ok_0),
                ExpressionModel::Block(r2->Ok_0),
            ))
        }),
    decreases o1, o1.children.len() + 1,
{
    lemma_block_from_alike(o1, o2, 0, budget);
}

proof fn lemma_assignment_alike(o1: Occurrence, o2: Occurrence, budget: nat)
    requires
        same_shape(o1, o2),
    ensures
        ({
            let (r1, r2) = (assignment_result(o1, budget), assignment_result(o2, budget));
            fail_alike(r1, r2) || (r1 is Ok && r2 is Ok && assignment_alike(r1->Ok_0, r2->Ok_0))
        }),
    decreases o1, 0int,
{
    if o1.children.len() > 0 {
        assert(same_shape(o1.children[0], o2.children[0]));
        lemma_identifier_alike(o1.children[0], o2.children[0]);
    }
    if o1.children.len() > 1 {
        assert(same_shape(o1.children[1], o2.children[1]));
        lemma_expression_alike(o1.children[1], o2.children[1], budget);
    }
}

proof fn lemma_program_items_alike(p1: Occurrence, p2: Occurrence, i: int)
    requires
        same_shape(p1, p2),
    ensures
        ({
            let (r1, r2) = (program_items_from(p1, i), program_items_from(p2, i));
            fail_alike(r1, r2) || (r1 is Ok && r2 is Ok && assignments_alike(r1->Ok_0, r2->Ok_0))
        }),
    decreases p1.children.len() - i,
{
    if 0 <= i < p1.children.len() {
        assert(same_shape(p1.children[i], p2.children[i]));
        lemma_assignment_alike(p1.children[i], p2.children[i], MAX_NESTING as nat);
        lemma_program_items_alike(p1, p2, i + 1);
        if program_items_from(p1, i) is Ok && program_items_from(p2, i) is Ok {
            let a = program_items_from(p1, i + 1)->Ok_0;
            let b = program_items_from(p2, i + 1)->Ok_0;
            let s1 = program_items_from(p1, i)->Ok_0;
            let s2 = program_items_from(p2, i)->Ok_0;
            assert forall|k: int| 0 <= k < s1.len() implies assignment_alike(
                #[trigger] s1[k],
                s2[k],
            ) by {
                if k > 0 {
                    assert(s1[k] == a[k - 1]);
                    assert(s2[k] == b[k - 1]);
                }
            }
        }
    }
}

/// Building is repeatable: two top-level results of the grammar engine that
/// differ at most in their spans (as the same text read from two buffers does)
/// give programs that differ at most in their spans, or errors that do.
pub proof fn lemma_same_text_same_tree(top1: Seq<Occurrence>, top2: Seq<Occurrence>)
    requires
        top1.len() == top2.len(),
        forall|i: int| 0 <= i < top1.len() ==> same_shape(#[trigger] top1[i], top2[i]),
    ensures
        ({
            let (r1, r2) = (program_result(top1), program_result(top2));
            fail_alike(r1, r2) || (r1 is Ok && r2 is Ok && program_alike(r1->Ok_0, r2->Ok_0))
        }),
{
    if top1.len() == 1 {
        assert(same_shape(top1[0], top2[0]));
        lemma_program_items_alike(top1[0], top2[0], 0);
    }
}

} // verus!
