use rock_lib::ast::{
    Expression, LambdaArrowKind, Operand, PrimaryExpr, RangeExpr, SecondaryExpr, Statement,
    TopLevel, UnaryExpr,
};
use rock_lib::parser::{
    parse_expression_source, parse_function_decl_source, parse_if_source, parse_string,
};

fn parse(source: &str) -> Expression {
    let (parsed, rest) = match parse_expression_source(source) {
        Ok(x) => x,
        Err(e) => panic!("{source}: {e:?}"),
    };
    assert!(rest == 0, "unparsed tokens in {source}: {rest}");
    parsed
}

fn primary(expression: &Expression) -> &PrimaryExpr {
    let Expression::UnaryExpr(UnaryExpr::PrimaryExpr(primary)) = expression else {
        panic!("expected a primary expression: {expression:?}");
    };
    primary
}

fn secondaries(expression: &Expression) -> &[SecondaryExpr] {
    primary(expression)
        .secondaries
        .as_deref()
        .unwrap_or_default()
}

fn parse_in_body(source: &str) -> Expression {
    let program = parse_string(&format!("main = ->\n    {}\n", source.replace('\n', "\n    ")))
        .unwrap();
    let TopLevel::FunctionDecl(function) = &program.module.top_levels[0];
    let Statement::Expression(expression) = &function.lambda.body.statements[0] else {
        panic!("expected expression");
    };
    rock_lib::ast::clone_expression(expression)
}

fn parse_range(source: &str) -> RangeExpr {
    let (expression, rest) = parse_expression_source(source).unwrap();
    assert_eq!(rest, 0, "range parser left trailing tokens");
    let Expression::Range(range) = expression else {
        panic!("expected range expression for {source:?}, got {expression:?}");
    };
    range
}

#[test]
fn multiline_chain_follows_completed_inline_call() {
    for source in [
        "make \"path\"\n    .unwrap_or -1\n    .println!",
        "make arg\n    .unwrap_or 0\n    .println!",
        "make first, second\n    .unwrap_or 0\n    .println!",
        "make nested arg\n    .unwrap_or 0\n    .println!",
        "make &mut arg\n    .unwrap_or 0\n    .println!",
        "make arg\n\n    // Continue the call.\n    .unwrap_or 0\n    .println!",
    ] {
        let parsed = parse_in_body(source);
        assert!(
            matches!(
                secondaries(&parsed),
                [
                    SecondaryExpr::Arguments(_),
                    SecondaryExpr::Dot(_),
                    SecondaryExpr::Arguments(_),
                    SecondaryExpr::Dot(_),
                    SecondaryExpr::Arguments(_)
                ]
            ),
            "{source}: {parsed:?}"
        );
    }
}

#[test]
fn multiline_chain_can_explicitly_belong_to_an_argument() {
    let parsed = parse("consume (make arg\n    .finish!)");
    let [SecondaryExpr::Arguments(arguments)] = secondaries(&parsed) else {
        panic!("expected a single outer call: {parsed:?}");
    };
    let Operand::Expression(inner) = &primary(&arguments[0].arg).operand else {
        panic!("expected an explicitly grouped argument");
    };
    assert!(matches!(
        secondaries(inner),
        [
            SecondaryExpr::Arguments(_),
            SecondaryExpr::Dot(_),
            SecondaryExpr::Arguments(_)
        ]
    ));
}

#[test]
fn multiline_chain_restores_statement_indentation() {
    let source = "main = !->\n    make 1\n        .unwrap_or 0\n        .println!\n    make 2\n        .unwrap_or 0\n        .println!\n";
    let program = parse_string(source).unwrap();
    let TopLevel::FunctionDecl(function) = &program.module.top_levels[0];
    assert_eq!(function.lambda.body.statements.len(), 2);
}

#[test]
fn call_result_propagation_precedes_any_following_infix_operator() {
    for operator in ["|>", "|>>", "+", "*", "==", "&&", "<+>"] {
        let source = format!("make &mut value? {operator} other");
        let parsed = parse(&source);
        let Expression::BinopExpr(UnaryExpr::PrimaryExpr(call), actual, _) = &parsed else {
            panic!("expected the operator outside the propagated call: {source}: {parsed:?}");
        };
        assert_eq!(actual.value, operator);
        assert!(matches!(
            call.secondaries.as_deref(),
            Some([SecondaryExpr::Arguments(_), SecondaryExpr::Interogation])
        ));
    }
}

#[test]
fn call_result_propagation_precedes_suffixes_and_reapplication() {
    for source in [
        "make value?.next 1?",
        "make value?[0]",
        "make value??",
        "make value? argument?",
    ] {
        let parsed = parse(source);
        assert!(
            matches!(
                secondaries(&parsed),
                [SecondaryExpr::Arguments(_), SecondaryExpr::Interogation, ..]
            ),
            "{source}: {parsed:?}"
        );
    }
    let parsed = parse("make value? as I32");
    let Expression::CastExpr(inner, _) = parsed else {
        panic!("expected a cast");
    };
    assert!(matches!(
        secondaries(&inner),
        [SecondaryExpr::Arguments(_), SecondaryExpr::Interogation]
    ));
}

#[test]
fn call_result_propagation_completes_expression_arguments_and_nested_calls() {
    for source in [
        "make a + b?",
        "make nested value?",
        "make first, nested second?",
    ] {
        let parsed = parse(source);
        assert!(
            matches!(
                secondaries(&parsed),
                [SecondaryExpr::Arguments(_), SecondaryExpr::Interogation]
            ),
            "{source}: {parsed:?}"
        );
    }
}

#[test]
fn argument_delimiters_keep_inner_propagation_local() {
    for source in [
        "consume (value?)",
        "consume dummy, [value?]",
        "consume dummy, [value?; 2]",
        "consume values[index?]",
        "consume (left?, right?)",
        "consume if flag then left? else right?",
        "consume Box value: item?",
        "consume (value -> make value?)",
    ] {
        let parsed = parse(source);
        assert!(
            matches!(secondaries(&parsed), [SecondaryExpr::Arguments(_)]),
            "{source}: {parsed:?}"
        );
    }
    let parsed = parse("consume (left?), right?");
    assert!(matches!(
        secondaries(&parsed),
        [SecondaryExpr::Arguments(_), SecondaryExpr::Interogation]
    ));
}

#[test]
fn ungrouped_propagation_ends_the_call_before_a_comma() {
    assert!(parse_string("main = -> consume left?, right\n").is_err());
}

#[test]
fn parses_all_native_range_forms() {
    for (source, has_start, has_end, inclusive) in [
        ("1..4", true, true, false),
        ("1..=4", true, true, true),
        ("..4", false, true, false),
        ("..=4", false, true, true),
        ("1..", true, false, false),
        ("..", false, false, false),
    ] {
        let range = parse_range(source);
        assert_eq!(range.start.is_some(), has_start, "source: {source}");
        assert_eq!(range.end.is_some(), has_end, "source: {source}");
        assert_eq!(range.inclusive, inclusive, "source: {source}");
    }
}

#[test]
fn range_endpoints_accept_expressions() {
    let range = parse_range("start + 1..finish * 2");
    assert!(range.start.is_some());
    assert!(range.end.is_some());
}

#[test]
fn inclusive_range_requires_an_end() {
    assert!(parse_expression_source("1..=").is_err());
}

#[test]
fn inline_callback_does_not_capture_preceding_call_arguments() {
    for source in [
        "for_each 1..=30, number !-> number.println!",
        "for_each values, value !-> value.println!",
        "for_each &values, value !-> value.println!",
        "for_each 1..=30, number !->\n    number\n        |> transform\n        |> print_value",
    ] {
        let (parsed, rest) = parse_expression_source(source).unwrap();
        assert!(rest == 0, "trailing tokens in {source:?}: {rest:?}");
        let Expression::UnaryExpr(UnaryExpr::PrimaryExpr(call)) = parsed else {
            panic!("expected call in {source:?}, got {parsed:?}");
        };
        let arguments = call
            .secondaries
            .unwrap()
            .into_iter()
            .find_map(|secondary| match secondary {
                SecondaryExpr::Arguments(arguments) => Some(arguments),
                _ => None,
            })
            .unwrap();
        assert_eq!(arguments.len(), 2, "source: {source}");
        let Expression::UnaryExpr(UnaryExpr::PrimaryExpr(callback)) = &arguments[1].arg else {
            panic!("expected callback in {source:?}");
        };
        let Operand::LambdaDecl(lambda) = &callback.operand else {
            panic!("expected lambda in {source:?}");
        };
        assert_eq!(lambda.parameters.len(), 1);
        assert_eq!(lambda.arrow_kind, LambdaArrowKind::Unit);
    }
}

#[test]
fn parenthesized_callback_keeps_multiple_parameters() {
    let (parsed, rest) = parse_expression_source("apply (left, right !-> left.println!)").unwrap();
    assert!(rest == 0);
    let Expression::UnaryExpr(UnaryExpr::PrimaryExpr(call)) = parsed else {
        panic!("expected call");
    };
    let SecondaryExpr::Arguments(arguments) = &call.secondaries.as_ref().unwrap()[0] else {
        panic!("expected arguments");
    };
    assert_eq!(arguments.len(), 1);
    let Expression::UnaryExpr(UnaryExpr::PrimaryExpr(argument)) = &arguments[0].arg else {
        panic!("expected parenthesized argument");
    };
    let Operand::Expression(inner) = &argument.operand else {
        panic!("expected grouping, got {:?}", argument.operand);
    };
    let Expression::UnaryExpr(UnaryExpr::PrimaryExpr(callback)) = inner.as_ref() else {
        panic!("expected callback");
    };
    let Operand::LambdaDecl(lambda) = &callback.operand else {
        panic!("expected lambda");
    };
    assert_eq!(lambda.parameters.len(), 2);
}

#[test]
fn test_parse_function_shorthand() {
    let (function_decl, rest) = parse_function_decl_source("myfn = (+ 2)\n").unwrap();

    assert_eq!(function_decl.name.name, "myfn");
    assert_eq!(function_decl.lambda.parameters.len(), 1);
    assert_eq!(function_decl.lambda.body.statements.len(), 1);
    assert_eq!(rest, 0);
}

#[test]
fn test_parse_unit_receiver_shorthand() {
    for body in [".println!", ".abs!.println!", ".method 1, 2", ".field"] {
        for (marker, arrow_kind) in [("", LambdaArrowKind::Normal), ("!", LambdaArrowKind::Unit)] {
            let input = format!("myfn = ({marker}{body})\n");
            let (declaration, rest) = parse_function_decl_source(&input).unwrap();

            assert!(rest == 0, "{input}");
            assert_eq!(declaration.lambda.arrow_kind, arrow_kind, "{input}");
            assert_eq!(declaration.lambda.parameters.len(), 1, "{input}");
            assert_eq!(declaration.lambda.body.statements.len(), 1, "{input}");
        }
    }
}

#[test]
fn test_parse_unit_receiver_shorthand_rejects_missing_member() {
    assert!(parse_function_decl_source("myfn = (!.)\n").is_err());
}

#[test]
fn multiline_if() {
    let (_if_, rest) = parse_if_source("if true\n    1").unwrap();

    assert_eq!(rest, 0);
}

#[test]
fn multiline_if_with_negative_branch() {
    let (parsed, rest) = parse_if_source("if value <= 0\n    -1\nelse\n    1").unwrap();
    assert!(rest == 0);
    assert!(parsed.else_.is_some());
    assert!(matches!(
        &parsed.then_branch.statements[0],
        Statement::Expression(Expression::UnaryExpr(UnaryExpr::UnaryExpr(op, _)))
            if op.value == "-"
    ));
}

#[test]
fn sources_that_do_not_lex_are_refused() {
    assert!(parse_string("main = -> \"unterminated\n").is_err());
    assert!(parse_string("main = -> value # other\n").is_err());
    assert!(parse_expression_source("\"open").is_err());
}

#[test]
fn statements_after_the_declaration_line_must_be_indented() {
    assert!(parse_string("main = ->\nvalue\n").is_err());
    assert!(parse_string("main = ->\n    value\n  other\n").is_err());
}

#[test]
fn a_digit_source_parses_to_its_number_with_nothing_left() {
    let expression = parse("12");
    let rock_lib::ast::Operand::Literal(literal) = &primary(&expression).operand else {
        panic!("expected a literal");
    };
    let rock_lib::ast::LiteralKind::Number(text) = &literal.kind else {
        panic!("expected a number");
    };
    assert_eq!(text, "12");
    assert!(secondaries(&expression).is_empty());
}

#[test]
fn a_blank_source_parses_to_an_empty_module() {
    let program = parse_string("  \n\n").unwrap();
    assert!(program.module.top_levels.is_empty());
}

fn number_text(expression: &Expression) -> String {
    let Operand::Literal(literal) = &primary(expression).operand else {
        panic!("expected a literal: {expression:?}");
    };
    let rock_lib::ast::LiteralKind::Number(text) = &literal.kind else {
        panic!("expected a number");
    };
    text.clone()
}

#[test]
fn a_one_line_if_of_numbers_parses_to_its_parts() {
    let (parsed, rest) = parse_if_source("if 1 then 2").unwrap();
    assert_eq!(rest, 0);
    assert_eq!(number_text(&parsed.cond), "1");
    assert_eq!(parsed.then_branch.statements.len(), 1);
    let Statement::Expression(then_value) = &parsed.then_branch.statements[0] else {
        panic!("expected an expression");
    };
    assert_eq!(number_text(then_value), "2");
    assert!(parsed.else_.is_none());
}

#[test]
fn a_declaration_of_a_number_parses_to_its_name_and_body() {
    let (declaration, rest) = parse_function_decl_source("answer = -> 42").unwrap();
    assert_eq!(rest, 0);
    assert_eq!(declaration.name.name, "answer");
    assert!(declaration.lambda.parameters.is_empty());
    assert_eq!(declaration.lambda.arrow_kind, LambdaArrowKind::Normal);
    let Statement::Expression(body) = &declaration.lambda.body.statements[0] else {
        panic!("expected an expression");
    };
    assert_eq!(number_text(body), "42");
}

#[test]
fn a_one_line_program_declares_its_function() {
    let program = parse_string("main = -> 0").unwrap();
    assert_eq!(program.module.top_levels.len(), 1);
    let TopLevel::FunctionDecl(function) = &program.module.top_levels[0];
    assert_eq!(function.name.name, "main");
    assert!(function.lambda.parameters.is_empty());
    let Statement::Expression(body) = &function.lambda.body.statements[0] else {
        panic!("expected an expression");
    };
    assert_eq!(number_text(body), "0");
}
