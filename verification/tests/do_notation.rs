use rock_lib::fmt::{format_module, format_program};
use rock_lib::ast::{
    DoStatement, Expression, IdentOrType, Operand, SecondaryExpr, Statement, TopLevel, UnaryExpr,
};
use rock_lib::parser::{parse_source, parse_string};

#[test]
fn do_notation_format_roundtrip() {
    let source = "main = ->\n    result = do\n        x <- first!\n        _ <- second x\n        total = x + 1\n        pure total\n    result\n";
    let parsed = parse_string(source).unwrap();
    let formatted = format_program(&parsed);
    assert!(formatted.contains("x <- first!"), "{formatted}");
    assert!(formatted.contains("_ <- second x"), "{formatted}");
    let reparsed = parse_string(&formatted).unwrap();
    assert_eq!(formatted, format_program(&reparsed));
}

#[test]
fn do_notation_rejects_invalid_statements() {
    for source in [
        "main = -> do\n",
        "main = -> do\n    x <- action!\n",
        "main = -> do\n    x = 1\n",
        "main = -> do\n    (x, y) <- action!\n    pure x\n",
        "main = -> do\n    return action!\n",
        "main = -> do\n    x = action!?\n    pure x\n",
        "main = -> do\n    break\n    pure 1\n",
        "main = -> do\n    if true then return 1\n    pure 1\n",
    ] {
        assert!(parse_string(source).is_err(), "accepted {source}");
    }
}

#[test]
fn do_notation_allows_explicit_function_control_flow() {
    let source = "main = -> do\n    helper = ->\n        return 1\n    pure helper!\n";
    parse_string(source).unwrap();
}

#[test]
fn do_notation_allows_local_loop_control_flow() {
    let source = "main = -> do\n    action = -> pure 1\n    ignored = loop\n        break\n    action!\n";
    parse_string(source).unwrap();
}

#[test]
fn do_notation_nested_format_and_comments_roundtrip() {
    let source = "main = -> do\n    // Bind the outer value.\n    x <- first!\n    y <- do\n        z <- second x\n        pure z\n    pure (x + y)\n";
    let module = parse_source(source).unwrap();
    let formatted = format_module(&module);
    assert!(
        formatted.contains("// Bind the outer value."),
        "{formatted}"
    );
    assert_eq!(formatted.matches("do").count(), 2, "{formatted}");
    let reparsed = parse_source(&formatted).unwrap();
    assert_eq!(formatted, format_module(&reparsed));
}

fn hard_message(source: &str) -> String {
    match parse_string(source) {
        Err(rock_lib::parser::ParseError::HardError(message, _)) => message,
        other => panic!("expected a hard error for {source}: {:?}", other.is_ok()),
    }
}

#[test]
fn do_refusals_carry_their_messages() {
    assert_eq!(hard_message("main = -> do\n"), "Expected an indented do block");
    assert_eq!(hard_message("main = -> do\n    x <- 1\n"), "A do block must end with an expression");
    assert_eq!(hard_message("main = -> do\n    x <- action!\n"), "A do block must end with an expression");
    assert_eq!(hard_message("main = -> do\n    mut x <- 1\n    2\n"), "A do bind requires an identifier or '_'");
    assert_eq!(
        hard_message("main = -> do\n    return\n    2\n"),
        "Use the final expression instead of return in a do block"
    );
    assert_eq!(
        hard_message("main = -> do\n    return action!\n"),
        "Use the final expression instead of return in a do block"
    );
    assert_eq!(hard_message("main = -> do\n    break\n    pure 1\n"), "Control flow cannot leave a do block");
    assert_eq!(hard_message("main = -> do\n    continue\n    pure 1\n"), "Control flow cannot leave a do block");
}

#[test]
fn a_do_block_of_numbers_expands_into_one_wildcard_arm() {
    let module = parse_source("main = -> do\n    x <- 1\n    2\n    3\n").unwrap();
    let TopLevel::FunctionDecl(function) = &module.top_levels[0];
    let Statement::Expression(Expression::UnaryExpr(UnaryExpr::PrimaryExpr(primary))) =
        &function.lambda.body.statements[0]
    else {
        panic!("expected an expression");
    };
    let Operand::Match(m) = &primary.operand else {
        panic!("expected the expanded match");
    };
    assert_eq!(m.arms.len(), 1);
    assert!(m.arms[0].condition.is_none());
    let entries = m.do_syntax.as_ref().unwrap();
    assert_eq!(entries.len(), 3);
    assert!(matches!(entries[0], DoStatement::Bind(_, _, _)));
    assert!(matches!(entries[1], DoStatement::Statement(Statement::Expression(_), _)));
    assert!(matches!(entries[2], DoStatement::Statement(Statement::Expression(_), _)));
    assert_eq!(m.arms[0].body.statements.len(), 1);
}

#[test]
fn do_refusals_point_at_the_do_or_the_statement() {
    let span_of = |source: &str| match parse_string(source) {
        Err(rock_lib::parser::ParseError::HardError(_, span)) => (span.start, span.end),
        other => panic!("expected a hard error for {source}: {:?}", other.is_ok()),
    };
    // `do` stands at characters 10..12.
    assert_eq!(span_of("main = -> do\n    x <- 1\n"), (10, 12));
    // `break` stands at characters 17..22.
    assert_eq!(span_of("main = -> do\n    break\n    pure 1\n"), (17, 22));
}

#[test]
fn a_do_block_of_names_keeps_its_entries_in_order() {
    let module = parse_source("main = -> do\n    x <- first\n    y <- x\n    y\n").unwrap();
    let TopLevel::FunctionDecl(function) = &module.top_levels[0];
    let Statement::Expression(Expression::UnaryExpr(UnaryExpr::PrimaryExpr(primary))) =
        &function.lambda.body.statements[0]
    else {
        panic!("expected an expression");
    };
    let Operand::Match(m) = &primary.operand else {
        panic!("expected the expanded match");
    };
    let entries = m.do_syntax.as_ref().unwrap();
    assert_eq!(entries.len(), 3);
    assert!(matches!(entries[0], DoStatement::Bind(_, _, _)));
    assert!(matches!(entries[1], DoStatement::Bind(_, _, _)));
    assert!(matches!(entries[2], DoStatement::Statement(Statement::Expression(_), _)));
    // The first bind wraps the rest of the block into its callback.
    assert_eq!(m.arms[0].body.statements.len(), 1);
}

#[test]
fn a_do_block_binds_calls_without_arguments_and_wildcards() {
    let module = parse_source("main = -> do\n    x <- first!\n    _ <- second!\n    x\n").unwrap();
    let TopLevel::FunctionDecl(function) = &module.top_levels[0];
    let Statement::Expression(Expression::UnaryExpr(UnaryExpr::PrimaryExpr(primary))) =
        &function.lambda.body.statements[0]
    else {
        panic!("expected an expression");
    };
    let Operand::Match(m) = &primary.operand else {
        panic!("expected the expanded match");
    };
    let entries = m.do_syntax.as_ref().unwrap();
    assert_eq!(entries.len(), 3);
    let DoStatement::Bind(first_parameter, first_action, _) = &entries[0] else {
        panic!("expected a bind");
    };
    assert!(matches!(first_parameter.kind, rock_lib::ast::PatternKind::Ident(_)));
    let Expression::UnaryExpr(UnaryExpr::PrimaryExpr(call)) = first_action else {
        panic!("expected a call");
    };
    assert_eq!(call.secondaries.as_ref().map(|s| s.len()), Some(1));
    let DoStatement::Bind(second_parameter, _, _) = &entries[1] else {
        panic!("expected a bind");
    };
    assert!(matches!(second_parameter.kind, rock_lib::ast::PatternKind::Wildcard));
}

#[test]
fn a_do_block_binds_calls_with_one_argument() {
    let module = parse_source("main = -> do\n    x <- first!\n    _ <- second x\n    pure x\n").unwrap();
    let TopLevel::FunctionDecl(function) = &module.top_levels[0];
    let Statement::Expression(Expression::UnaryExpr(UnaryExpr::PrimaryExpr(primary))) =
        &function.lambda.body.statements[0]
    else {
        panic!("expected an expression");
    };
    let Operand::Match(m) = &primary.operand else {
        panic!("expected the expanded match");
    };
    let entries = m.do_syntax.as_ref().unwrap();
    assert_eq!(entries.len(), 3);
    let DoStatement::Statement(Statement::Expression(Expression::UnaryExpr(UnaryExpr::PrimaryExpr(last))), _) =
        &entries[2]
    else {
        panic!("expected the final call");
    };
    let Some(secondaries) = &last.secondaries else {
        panic!("expected the argument list");
    };
    let rock_lib::ast::SecondaryExpr::Arguments(arguments) = &secondaries[0] else {
        panic!("expected arguments");
    };
    assert_eq!(arguments.len(), 1);
}

#[test]
fn a_do_block_keeps_assignments_in_place_and_refuses_one_at_the_end() {
    let module = parse_source("main = -> do\n    x <- first!\n    total = x\n    pure total\n").unwrap();
    let TopLevel::FunctionDecl(function) = &module.top_levels[0];
    let Statement::Expression(Expression::UnaryExpr(UnaryExpr::PrimaryExpr(primary))) =
        &function.lambda.body.statements[0]
    else {
        panic!("expected an expression");
    };
    let Operand::Match(m) = &primary.operand else {
        panic!("expected the expanded match");
    };
    let entries = m.do_syntax.as_ref().unwrap();
    assert!(matches!(entries[1], DoStatement::Statement(Statement::Assignment(_), _)));
    assert_eq!(hard_message("main = -> do\n    x = 1\n"), "A do block must end with an expression");
}

#[test]
fn do_refusals_name_every_escape_and_pattern() {
    assert_eq!(
        hard_message("main = -> do\n    (x, y) <- action!\n    pure x\n"),
        "A do bind requires an identifier or '_'"
    );
    assert_eq!(
        hard_message("main = -> do\n    x = action!?\n    pure x\n"),
        "Use '<-' instead of '?' in a do block"
    );
    assert_eq!(
        hard_message("main = -> do\n    if true then return 1\n    pure 1\n"),
        "Use the final expression instead of return in a do block"
    );
}

#[test]
fn do_entries_and_generated_nodes_carry_their_places() {
    // `do` stands at 10..12, `x` at 17..18 and `y` at 32..33.
    let module = parse_source("main = -> do\n    x <- first\n    y\n").unwrap();
    let TopLevel::FunctionDecl(function) = &module.top_levels[0];
    let Statement::Expression(Expression::UnaryExpr(UnaryExpr::PrimaryExpr(primary))) =
        &function.lambda.body.statements[0]
    else {
        panic!("expected an expression");
    };
    let Operand::Match(m) = &primary.operand else {
        panic!("expected the expanded match");
    };
    let Expression::UnaryExpr(UnaryExpr::PrimaryExpr(scrutinee)) = &*m.expr else {
        panic!("expected the scrutinee");
    };
    let Operand::Literal(literal) = &scrutinee.operand else {
        panic!("expected a literal");
    };
    assert_eq!((literal.span.start, literal.span.end), (10, 12));
    let entries = m.do_syntax.as_ref().unwrap();
    let DoStatement::Bind(_, _, bind_span) = &entries[0] else {
        panic!("expected a bind");
    };
    assert_eq!((bind_span.start, bind_span.end), (17, 18));
    let DoStatement::Statement(_, tail_span) = &entries[1] else {
        panic!("expected a statement");
    };
    assert_eq!((tail_span.start, tail_span.end), (32, 33));
    let Statement::Expression(Expression::UnaryExpr(UnaryExpr::PrimaryExpr(call))) =
        &m.arms[0].body.statements[0]
    else {
        panic!("expected the bind call");
    };
    let Operand::Ident(path) = &call.operand else {
        panic!("expected the name bind");
    };
    let IdentOrType::Ident(name) = &path.path[0] else {
        panic!("expected a name");
    };
    assert_eq!(name.name, "bind");
    assert_eq!((name.span.start, name.span.end), (17, 18));
    let Some(secondaries) = &call.secondaries else {
        panic!("expected arguments");
    };
    let SecondaryExpr::Arguments(args) = &secondaries[0] else {
        panic!("expected arguments");
    };
    let Expression::UnaryExpr(UnaryExpr::PrimaryExpr(group)) = &args[1].arg else {
        panic!("expected the callback");
    };
    let Operand::Expression(inner) = &group.operand else {
        panic!("expected a grouped callback");
    };
    let Expression::UnaryExpr(UnaryExpr::PrimaryExpr(lambda)) = &**inner else {
        panic!("expected the lambda");
    };
    let Operand::LambdaDecl(lambda) = &lambda.operand else {
        panic!("expected the lambda");
    };
    assert_eq!((lambda.span.start, lambda.span.end), (17, 18));
}

#[test]
fn do_notation_accepts_a_return_inside_an_inline_lambda() {
    let module = parse_source("main = -> do\n    helper = -> return 1\n    pure helper!\n").unwrap();
    let TopLevel::FunctionDecl(function) = &module.top_levels[0];
    let Statement::Expression(Expression::UnaryExpr(UnaryExpr::PrimaryExpr(primary))) =
        &function.lambda.body.statements[0]
    else {
        panic!("expected an expression");
    };
    let Operand::Match(m) = &primary.operand else {
        panic!("expected the expanded match");
    };
    let entries = m.do_syntax.as_ref().unwrap();
    assert_eq!(entries.len(), 2);
    assert!(matches!(entries[0], DoStatement::Statement(Statement::Assignment(_), _)));
}
