use expr_ast::{
    build_program, parse_expression, parse_identifier, parse_program, AstError, ChildContext,
    Expression, Occurrence, ParseError, RuleKind, Span, StructuralProblem, MAX_NESTING,
};

fn occ(rule: RuleKind, text: &str, start: usize, children: Vec<Occurrence>) -> Occurrence {
    Occurrence {
        rule,
        text: text.to_string(),
        span: Span { start, end: start + text.chars().count() },
        children,
    }
}

fn ident(text: &str, start: usize) -> Occurrence {
    occ(RuleKind::Identifier, text, start, vec![])
}

fn number(text: &str, start: usize) -> Occurrence {
    occ(RuleKind::Number, text, start, vec![])
}

fn expr(text: &str, start: usize, inner: Occurrence) -> Occurrence {
    occ(RuleKind::Expression, text, start, vec![inner])
}

fn ident_expr(text: &str, start: usize) -> Occurrence {
    expr(text, start, ident(text, start))
}

fn number_expr(text: &str, start: usize) -> Occurrence {
    expr(text, start, number(text, start))
}

fn assignment(text: &str, start: usize, name: Occurrence, value: Occurrence) -> Occurrence {
    occ(RuleKind::Assignment, text, start, vec![name, value])
}

fn program(text: &str, children: Vec<Occurrence>) -> Vec<Occurrence> {
    vec![occ(RuleKind::Program, text, 0, children)]
}

fn number_value(e: &Expression) -> i64 {
    match e {
        Expression::Number(n) => n.value,
        other => panic!("expected a number, got {:?}", other),
    }
}

fn identifier_name(e: &Expression) -> String {
    match e {
        Expression::Identifier(i) => i.name.clone(),
        other => panic!("expected an identifier, got {:?}", other),
    }
}

#[test]
fn empty_source_gives_empty_program() {
    let p = parse_program(&program("", vec![])).unwrap();
    assert!(p.assignments.is_empty());
    assert_eq!(p.span, Span { start: 0, end: 0 });
}

#[test]
fn single_assignment_of_number() {
    let src = "x = 1";
    let top = program(src, vec![assignment(src, 0, ident("x", 0), number_expr("1", 4))]);
    let p = parse_program(&top).unwrap();
    assert_eq!(p.assignments.len(), 1);
    let a = &p.assignments[0];
    assert_eq!(a.identifier.name, "x");
    assert_eq!(number_value(&a.expression), 1);
    assert_eq!(a.span, Span { start: 0, end: 5 });
    assert_eq!(p.span, Span { start: 0, end: 5 });
}

#[test]
fn function_definition_keeps_parameters_in_order() {
    // |a, b| a
    let params = occ(RuleKind::IdentList, "a, b", 1, vec![ident("a", 1), ident("b", 4)]);
    let def = occ(RuleKind::FunctionDefinition, "|a, b| a", 0, vec![params, ident_expr("a", 7)]);
    let e = parse_expression(&expr("|a, b| a", 0, def)).unwrap();
    match e {
        Expression::FunctionDefinition(d) => {
            let names: Vec<&str> = d.parameters.iter().map(|p| p.name.as_str()).collect();
            assert_eq!(names, vec!["a", "b"]);
            assert_eq!(identifier_name(&d.body), "a");
            assert_eq!(d.span, Span { start: 0, end: 8 });
        },
        other => panic!("expected a function definition, got {:?}", other),
    }
}

#[test]
fn function_definition_without_parameters() {
    let def = occ(RuleKind::FunctionDefinition, "|| 7", 0, vec![number_expr("7", 3)]);
    let e = parse_expression(&expr("|| 7", 0, def)).unwrap();
    match e {
        Expression::FunctionDefinition(d) => {
            assert!(d.parameters.is_empty());
            assert_eq!(number_value(&d.body), 7);
        },
        other => panic!("expected a function definition, got {:?}", other),
    }
}

#[test]
fn function_definition_with_parameters_but_no_body() {
    let params = occ(RuleKind::IdentList, "a", 1, vec![ident("a", 1)]);
    let def = occ(RuleKind::FunctionDefinition, "|a|", 0, vec![params]);
    let e = parse_expression(&expr("|a|", 0, def));
    assert!(matches!(
        e,
        Err(AstError::MissingChild { context: ChildContext::FunctionDefinitionBody })
    ));
}

#[test]
fn function_call_with_arguments() {
    let args = occ(
        RuleKind::FunctionArguments,
        "1, 2",
        4,
        vec![number_expr("1", 4), number_expr("2", 7)],
    );
    let call = occ(RuleKind::FunctionCall, "foo(1, 2)", 0, vec![ident("foo", 0), args]);
    match parse_expression(&expr("foo(1, 2)", 0, call)).unwrap() {
        Expression::FunctionCall(c) => {
            assert_eq!(c.function_name.name, "foo");
            let values: Vec<i64> = c.arguments.iter().map(number_value).collect();
            assert_eq!(values, vec![1, 2]);
            assert_eq!(c.span, Span { start: 0, end: 9 });
        },
        other => panic!("expected a call, got {:?}", other),
    }
}

#[test]
fn function_call_without_argument_list() {
    let call = occ(RuleKind::FunctionCall, "foo()", 0, vec![ident("foo", 0)]);
    match parse_expression(&expr("foo()", 0, call)).unwrap() {
        Expression::FunctionCall(c) => {
            assert_eq!(c.function_name.name, "foo");
            assert!(c.arguments.is_empty());
        },
        other => panic!("expected a call, got {:?}", other),
    }
}

#[test]
fn function_call_second_child_must_be_arguments() {
    let call = occ(RuleKind::FunctionCall, "foo 1", 0, vec![ident("foo", 0), number_expr("1", 4)]);
    match parse_expression(&expr("foo 1", 0, call)) {
        Err(AstError::RuleMismatch { expected, actual, .. }) => {
            assert_eq!(expected, RuleKind::FunctionArguments);
            assert_eq!(actual, RuleKind::Expression);
        },
        other => panic!("expected a rule mismatch, got {:?}", other),
    }
}

#[test]
fn block_with_assignments_and_tail() {
    // { a = 1 b = 2 a }
    let block = occ(
        RuleKind::Block,
        "{ a = 1 b = 2 a }",
        0,
        vec![
            assignment("a = 1", 2, ident("a", 2), number_expr("1", 6)),
            assignment("b = 2", 8, ident("b", 8), number_expr("2", 12)),
            ident_expr("a", 14),
        ],
    );
    match parse_expression(&expr("{ a = 1 b = 2 a }", 0, block)).unwrap() {
        Expression::Block(b) => {
            assert_eq!(b.assignments.len(), 2);
            assert_eq!(b.assignments[0].identifier.name, "a");
            assert_eq!(number_value(&b.assignments[0].expression), 1);
            assert_eq!(b.assignments[1].identifier.name, "b");
            assert_eq!(number_value(&b.assignments[1].expression), 2);
            assert_eq!(identifier_name(&b.expression), "a");
        },
        other => panic!("expected a block, got {:?}", other),
    }
}

#[test]
fn block_with_only_tail() {
    let block = occ(RuleKind::Block, "{ 5 }", 0, vec![number_expr("5", 2)]);
    match parse_expression(&expr("{ 5 }", 0, block)).unwrap() {
        Expression::Block(b) => {
            assert!(b.assignments.is_empty());
            assert_eq!(number_value(&b.expression), 5);
        },
        other => panic!("expected a block, got {:?}", other),
    }
}

#[test]
fn block_without_tail_is_missing_child() {
    let block = occ(
        RuleKind::Block,
        "{ a = 1 }",
        0,
        vec![assignment("a = 1", 2, ident("a", 2), number_expr("1", 6))],
    );
    let r = parse_expression(&expr("{ a = 1 }", 0, block));
    assert!(matches!(r, Err(AstError::MissingChild { context: ChildContext::BlockTail })));
}

#[test]
fn block_with_content_after_tail() {
    let block = occ(RuleKind::Block, "{ 1 2 }", 0, vec![number_expr("1", 2), number_expr("2", 4)]);
    match parse_expression(&expr("{ 1 2 }", 0, block)) {
        Err(AstError::StructuralError { problem, text, span, .. }) => {
            assert_eq!(problem, StructuralProblem::ExtraAfterBlockTail);
            assert_eq!(text, "2");
            assert_eq!(span, Span { start: 4, end: 5 });
        },
        other => panic!("expected a structural error, got {:?}", other),
    }
}

#[test]
fn identifier_builder_rejects_number() {
    match parse_identifier(&number("42", 0)) {
        Err(AstError::RuleMismatch { expected, actual, text, .. }) => {
            assert_eq!(expected, RuleKind::Identifier);
            assert_eq!(actual, RuleKind::Number);
            assert_eq!(text, "42");
        },
        other => panic!("expected a rule mismatch, got {:?}", other),
    }
}

#[test]
fn grammar_error_is_passed_on_unchanged() {
    let message = " --> 1:3\n  |\n1 | x =\n  |   ^---\n  = expected expression".to_string();
    match build_program(Err(message.clone())) {
        Err(ParseError::Syntax(m)) => assert_eq!(m, message),
        other => panic!("expected the engine's error, got {:?}", other),
    }
}

#[test]
fn build_program_runs_the_assembler() {
    let src = "y = 2";
    let top = program(src, vec![assignment(src, 0, ident("y", 0), number_expr("2", 4))]);
    let p = build_program(Ok(top)).unwrap();
    assert_eq!(p.assignments[0].identifier.name, "y");
    match build_program(Ok(vec![])) {
        Err(ParseError::Ast(AstError::TopLevelArity { found })) => assert_eq!(found, 0),
        other => panic!("expected an arity error, got {:?}", other),
    }
}

#[test]
fn number_text_is_converted() {
    assert_eq!(number_value(&parse_expression(&number_expr("42", 0)).unwrap()), 42);
    assert_eq!(number_value(&parse_expression(&number_expr("-17", 0)).unwrap()), -17);
    assert_eq!(number_value(&parse_expression(&number_expr("+8", 0)).unwrap()), 8);
    assert_eq!(
        number_value(&parse_expression(&number_expr("9223372036854775807", 0)).unwrap()),
        i64::MAX
    );
    assert_eq!(
        number_value(&parse_expression(&number_expr("-9223372036854775808", 0)).unwrap()),
        i64::MIN
    );
}

#[test]
fn number_out_of_range_is_conversion_error() {
    match parse_expression(&number_expr("9223372036854775808", 0)) {
        Err(AstError::NumericConversion { text, reason, .. }) => {
            assert_eq!(text, "9223372036854775808");
            assert!(!reason.is_empty());
        },
        other => panic!("expected a conversion error, got {:?}", other),
    }
    assert!(matches!(
        parse_expression(&number_expr("1_000", 0)),
        Err(AstError::NumericConversion { .. })
    ));
}

#[test]
fn expression_with_unknown_child_kind() {
    let inner = occ(RuleKind::IdentList, "a", 0, vec![ident("a", 0)]);
    match parse_expression(&expr("a", 0, inner)) {
        Err(AstError::UnexpectedRule { actual, text, .. }) => {
            assert_eq!(actual, RuleKind::IdentList);
            assert_eq!(text, "a");
        },
        other => panic!("expected an unexpected rule, got {:?}", other),
    }
}

#[test]
fn expression_needs_exactly_one_child() {
    let empty = occ(RuleKind::Expression, "", 0, vec![]);
    assert!(matches!(
        parse_expression(&empty),
        Err(AstError::MissingChild { context: ChildContext::ExpressionInner })
    ));
    let two = occ(RuleKind::Expression, "1 2", 0, vec![number("1", 0), number("2", 2)]);
    assert!(matches!(
        parse_expression(&two),
        Err(AstError::MissingChild { context: ChildContext::ExpressionInner })
    ));
}

#[test]
fn expression_builder_checks_its_tag() {
    match parse_expression(&ident("x", 0)) {
        Err(AstError::RuleMismatch { expected, actual, .. }) => {
            assert_eq!(expected, RuleKind::Expression);
            assert_eq!(actual, RuleKind::Identifier);
        },
        other => panic!("expected a rule mismatch, got {:?}", other),
    }
}

#[test]
fn assignment_without_value_is_missing_child() {
    let a = occ(RuleKind::Assignment, "x =", 0, vec![ident("x", 0)]);
    assert!(matches!(
        parse_program(&program("x =", vec![a])),
        Err(AstError::MissingChild { context: ChildContext::AssignmentExpression })
    ));
    let bare = occ(RuleKind::Assignment, "", 0, vec![]);
    assert!(matches!(
        parse_program(&program("", vec![bare])),
        Err(AstError::MissingChild { context: ChildContext::AssignmentIdentifier })
    ));
}

#[test]
fn top_level_must_be_one_program() {
    let two = vec![occ(RuleKind::Program, "", 0, vec![]), occ(RuleKind::Program, "", 0, vec![])];
    assert!(matches!(parse_program(&two), Err(AstError::TopLevelArity { found: 2 })));
    assert!(matches!(parse_program(&vec![]), Err(AstError::TopLevelArity { found: 0 })));
    match parse_program(&vec![ident("x", 0)]) {
        Err(AstError::RuleMismatch { expected, actual, .. }) => {
            assert_eq!(expected, RuleKind::Program);
            assert_eq!(actual, RuleKind::Identifier);
        },
        other => panic!("expected a rule mismatch, got {:?}", other),
    }
}

#[test]
fn program_child_must_be_assignment() {
    match parse_program(&program("1", vec![number_expr("1", 0)])) {
        Err(AstError::StructuralError { problem, actual, .. }) => {
            assert_eq!(problem, StructuralProblem::NonAssignmentInProgram);
            assert_eq!(actual, RuleKind::Expression);
        },
        other => panic!("expected a structural error, got {:?}", other),
    }
}

#[test]
fn first_error_in_source_order_wins() {
    // the first assignment's number overflows, the second's name is a number
    let src = "a = 99999999999999999999 1 = 2";
    let top = program(
        src,
        vec![
            assignment("a = 99999999999999999999", 0, ident("a", 0), number_expr("99999999999999999999", 4)),
            assignment("1 = 2", 25, number("1", 25), number_expr("2", 29)),
        ],
    );
    assert!(matches!(parse_program(&top), Err(AstError::NumericConversion { .. })));
}

#[test]
fn spans_cover_the_source_text() {
    let src = "x = 1 yy = f(2)";
    let args = occ(RuleKind::FunctionArguments, "2", 13, vec![number_expr("2", 13)]);
    let call = occ(RuleKind::FunctionCall, "f(2)", 11, vec![ident("f", 11), args]);
    let top = program(
        src,
        vec![
            assignment("x = 1", 0, ident("x", 0), number_expr("1", 4)),
            assignment("yy = f(2)", 6, ident("yy", 6), expr("f(2)", 11, call)),
        ],
    );
    let p = parse_program(&top).unwrap();
    let chars: Vec<char> = src.chars().collect();
    let text = |s: Span| chars[s.start..s.end].iter().collect::<String>();
    assert_eq!(text(p.span), src);
    assert_eq!(text(p.assignments[0].span), "x = 1");
    assert_eq!(text(p.assignments[0].identifier.span), "x");
    assert_eq!(text(p.assignments[1].span), "yy = f(2)");
    assert_eq!(text(p.assignments[1].identifier.span), "yy");
    match &*p.assignments[1].expression {
        Expression::FunctionCall(c) => {
            assert_eq!(text(c.span), "f(2)");
            assert_eq!(text(c.function_name.span), "f");
            match &c.arguments[0] {
                Expression::Number(n) => assert_eq!(text(n.span), "2"),
                other => panic!("expected a number, got {:?}", other),
            }
        },
        other => panic!("expected a call, got {:?}", other),
    }
}

#[test]
fn same_text_twice_gives_same_tree() {
    let build = |offset: usize| {
        let src = "v = g(3)";
        let args = occ(RuleKind::FunctionArguments, "3", offset + 6, vec![number_expr("3", offset + 6)]);
        let call = occ(RuleKind::FunctionCall, "g(3)", offset + 4, vec![ident("g", offset + 4), args]);
        let a = assignment(src, offset, ident("v", offset), expr("g(3)", offset + 4, call));
        vec![occ(RuleKind::Program, src, offset, vec![a])]
    };
    let first = parse_program(&build(0)).unwrap();
    let again = parse_program(&build(0)).unwrap();
    assert_eq!(format!("{:?}", first), format!("{:?}", again));
    let shifted = parse_program(&build(10)).unwrap();
    let strip = |p: &expr_ast::Program| match &*p.assignments[0].expression {
        Expression::FunctionCall(c) => {
            (p.assignments[0].identifier.name.clone(), c.function_name.name.clone(), number_value(&c.arguments[0]))
        },
        other => panic!("expected a call, got {:?}", other),
    };
    assert_eq!(strip(&first), strip(&shifted));
    assert_eq!(shifted.span, Span { start: 10, end: 18 });
}

/// `levels` expressions, each but the innermost a block around the next.
fn nested_blocks(levels: usize) -> Occurrence {
    let mut e = number_expr("0", 0);
    for _ in 1..levels {
        let block = occ(RuleKind::Block, "0", 0, vec![e]);
        e = expr("0", 0, block);
    }
    e
}

#[test]
fn nesting_up_to_the_limit_is_accepted() {
    let mut e = &parse_expression(&nested_blocks(MAX_NESTING)).unwrap();
    let mut depth = 1;
    while let Expression::Block(b) = e {
        e = &b.expression;
        depth += 1;
    }
    assert_eq!(depth, MAX_NESTING);
    assert_eq!(number_value(e), 0);
}

#[test]
fn nesting_beyond_the_limit_is_an_error() {
    let r = parse_expression(&nested_blocks(MAX_NESTING + 1));
    assert!(matches!(r, Err(AstError::NestingTooDeep { .. })));
}
