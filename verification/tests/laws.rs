use rock_lib::ast::{
    Expression, Operand, PrimaryExpr, SecondaryExpr, Statement, TopLevel, UnaryExpr,
};
use rock_lib::fmt::format_program;
use rock_lib::ids::{DefId, GenericParamId};
use rock_lib::matching::{
    infer_generic_subst_from_types, type_pattern_matches, type_pattern_matches_after_subst,
};
use rock_lib::parser::{parse_string, ParseError};
use rock_lib::subst::Substitution;
use rock_lib::types::{NominalTypeKind, Type};

fn param(index: u32) -> GenericParamId {
    GenericParamId { owner: DefId::new(0, 5), index }
}

fn do_body(source: &str) -> Vec<Statement> {
    let program = parse_string(source).unwrap();
    let TopLevel::FunctionDecl(function) = &program.module.top_levels[0];
    let Statement::Expression(Expression::UnaryExpr(UnaryExpr::PrimaryExpr(PrimaryExpr {
        operand: Operand::Match(m),
        ..
    }))) = &function.lambda.body.statements[0]
    else {
        panic!("expected a do block");
    };
    assert!(m.do_syntax.is_some());
    assert_eq!(m.arms.len(), 1);
    m.arms[0]
        .body
        .statements
        .iter()
        .map(rock_lib::ast::clone_statement)
        .collect()
}

fn hard_error(source: &str) -> String {
    match parse_string(source) {
        Err(ParseError::HardError(message, _)) => message,
        other => panic!("expected a hard error for {source:?}, got {other:?}"),
    }
}

#[test]
fn inference_keeps_existing_bindings() {
    let mut subst = Substitution::new();
    subst.insert(param(0), Type::Bool);
    let pattern = Type::Tuple(vec![Type::Generic(param(0)), Type::Generic(param(1))]);
    infer_generic_subst_from_types(&pattern, &Type::Tuple(vec![Type::I64, Type::U8]), &mut subst);
    assert_eq!(subst.get(&param(0)), Some(&Type::Bool));
    assert_eq!(subst.get(&param(1)), Some(&Type::U8));
}

#[test]
fn matching_twice_binds_nothing_new() {
    let pattern = Type::Struct { id: DefId::new(0, 9), args: vec![Type::Generic(param(0))] };
    let actual = Type::Struct { id: DefId::new(0, 9), args: vec![Type::I32] };
    let mut subst = Substitution::new();
    assert!(type_pattern_matches(&pattern, &actual, &mut subst));
    let first = subst.clone();
    assert!(type_pattern_matches(&pattern, &actual, &mut subst));
    assert!(subst.same_as(&first));
    assert_eq!(subst.len(), 1);
}

#[test]
fn empty_substitution_leaves_types_unchanged() {
    let ty = Type::Function {
        params: vec![Type::Generic(param(0)), Type::Slice(Box::new(Type::Char))],
        ret: Box::new(Type::Generic(param(1))),
        safety: rock_lib::types::FunctionSafety::Safe,
        callable_kind: rock_lib::types::CallableKind::Fn,
        captures: Vec::new(),
    };
    assert_eq!(ty.substitute_generics(&Substitution::new()), ty);
}

#[test]
fn do_block_without_binds_keeps_its_assignments_in_order() {
    let body = do_body("main = -> do\n    x = 1\n    y = x\n    pure y\n");
    assert_eq!(body.len(), 3);
    assert!(matches!(body[0], Statement::Assignment(_)));
    assert!(matches!(body[1], Statement::Assignment(_)));
    assert!(matches!(body[2], Statement::Expression(_)));
}

#[test]
fn bind_wraps_the_rest_of_the_block_in_its_callback() {
    let body = do_body("main = -> do\n    x <- first!\n    y = x\n    pure y\n");
    assert_eq!(body.len(), 1);
    let Statement::Expression(Expression::UnaryExpr(UnaryExpr::PrimaryExpr(call))) = &body[0] else {
        panic!("expected a bind call");
    };
    let Operand::Ident(path) = &call.operand else {
        panic!("expected a call of bind");
    };
    assert_eq!(path.path.len(), 1);
    let Some(secondaries) = &call.secondaries else {
        panic!("expected arguments");
    };
    let [SecondaryExpr::Arguments(args)] = secondaries.as_slice() else {
        panic!("expected one argument list");
    };
    assert_eq!(args.len(), 2);
    let Expression::UnaryExpr(UnaryExpr::PrimaryExpr(grouped)) = &args[1].arg else {
        panic!("expected a grouped callback");
    };
    let Operand::Expression(inner) = &grouped.operand else {
        panic!("expected a grouped callback");
    };
    let Expression::UnaryExpr(UnaryExpr::PrimaryExpr(PrimaryExpr {
        operand: Operand::LambdaDecl(lambda),
        ..
    })) = inner.as_ref()
    else {
        panic!("expected a lambda");
    };
    assert_eq!(lambda.parameters.len(), 1);
    assert_eq!(lambda.body.statements.len(), 2);
    assert!(matches!(lambda.body.statements[0], Statement::Assignment(_)));
}

#[test]
fn bare_actions_bind_to_a_wildcard() {
    let body = do_body("main = -> do\n    first!\n    pure 1\n");
    assert_eq!(body.len(), 1);
    let formatted = format_program(&parse_string("main = -> do\n    first!\n    pure 1\n").unwrap());
    assert_eq!(formatted, "main = -> do\n    first!\n    pure 1\n");
}

#[test]
fn do_blocks_format_as_written() {
    let source = "main = -> do\n    x <- first!\n    // keep\n    total = x + 1\n    pure total\n";
    assert_eq!(format_program(&parse_string(source).unwrap()), source);
}

#[test]
fn do_block_errors_name_the_problem() {
    assert_eq!(hard_error("main = -> do\n"), "Expected an indented do block");
    assert_eq!(hard_error("main = -> do 1\n"), "Expected an indented do block");
    assert_eq!(
        hard_error("main = -> do\n    x <- action!\n"),
        "A do block must end with an expression"
    );
    assert_eq!(
        hard_error("main = -> do\n    mut x <- action!\n    pure x\n"),
        "A do bind requires an identifier or '_'"
    );
    assert_eq!(
        hard_error("main = -> do\n    return 1\n"),
        "Use the final expression instead of return in a do block"
    );
    assert_eq!(
        hard_error("main = -> do\n    continue\n    pure 1\n"),
        "Control flow cannot leave a do block"
    );
    assert_eq!(
        hard_error("main = -> do\n    x = action!?\n    pure x\n"),
        "Use '<-' instead of '?' in a do block"
    );
}

#[test]
fn an_applied_constructor_matches_as_its_nominal_type() {
    let id = DefId::new(0, 70);
    for flavor in [NominalTypeKind::Struct, NominalTypeKind::Enum] {
        let applied = Type::Apply {
            constructor: Box::new(Type::Constructor { id, flavor }),
            args: vec![Type::U8],
        };
        let nominal = match flavor {
            NominalTypeKind::Enum => Type::Enum { id, args: vec![Type::U8] },
            _ => Type::Struct { id, args: vec![Type::U8] },
        };
        for actual in [
            Type::Struct { id, args: vec![Type::U8] },
            Type::Enum { id, args: vec![Type::U8] },
            Type::Struct { id, args: vec![Type::Bool] },
            Type::Bool,
        ] {
            assert_eq!(
                type_pattern_matches_after_subst(&applied, &actual),
                type_pattern_matches_after_subst(&nominal, &actual)
            );
        }
        assert!(type_pattern_matches_after_subst(&applied, &nominal));
    }
}
