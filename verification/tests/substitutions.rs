use rock_lib::ast::{DoStatement, Operand};
use rock_lib::do_expr::do_expression;
use rock_lib::hir::{GenericParamDecl, HirImpl, HirImplReceiverPattern};
use rock_lib::ids::{DefId, GenericParamId};
use rock_lib::lexer::lex;
use rock_lib::matching::{
    constructor_target_substitution, generic_substitution_for_owner,
    seed_receiver_substitution_from_impl,
};
use rock_lib::parser::{Ctx, ParseError};
use rock_lib::subst::Substitution;
use rock_lib::types::{Kind, Type};

fn param(owner: u32, index: u32) -> GenericParamId {
    GenericParamId { owner: DefId::new(0, owner), index }
}

fn decl(owner: u32, index: u32) -> GenericParamDecl {
    GenericParamDecl { id: param(owner, index), kind: Kind::Type }
}

#[test]
fn owner_substitution_pairs_params_with_args_up_to_the_shorter() {
    let params = vec![decl(3, 0), decl(3, 1), decl(3, 2)];
    let args = vec![Type::U8, Type::Bool];
    let subst = generic_substitution_for_owner(&params, &args);
    let expected = Substitution::from_pairs(vec![(param(3, 0), Type::U8), (param(3, 1), Type::Bool)]);
    assert!(subst.same_as(&expected));
    assert!(!subst.contains_key(&param(3, 2)));

    let no_args: Vec<Type> = Vec::new();
    assert_eq!(generic_substitution_for_owner(&params, &no_args).len(), 0);
}

#[test]
fn seeding_from_an_impl_adds_receiver_bindings_and_keeps_others() {
    let impl_id = DefId::new(0, 40);
    let nominal = DefId::new(0, 41);
    let imp = HirImpl {
        id: impl_id,
        type_generics: vec![decl(40, 0)],
        receiver_pattern: HirImplReceiverPattern::Exact(Type::Struct {
            id: nominal,
            args: vec![Type::Generic(param(40, 0))],
        }),
        trait_id: None,
        trait_arg_types: Vec::new(),
        bounds: Vec::new(),
    };
    let receiver = Type::Struct { id: nominal, args: vec![Type::U8] };
    let mut subst = Substitution::from_pairs(vec![(param(9, 0), Type::Bool)]);
    seed_receiver_substitution_from_impl(&imp, &receiver, &mut subst);
    let expected = Substitution::from_pairs(vec![(param(9, 0), Type::Bool), (param(40, 0), Type::U8)]);
    assert!(subst.same_as(&expected));
}

#[test]
fn constructor_patterns_bind_against_their_target() {
    let nominal = DefId::new(0, 50);
    let pattern = HirImplReceiverPattern::Constructor(Type::Struct {
        id: nominal,
        args: vec![Type::Generic(param(50, 0))],
    });
    let target = Type::Struct { id: nominal, args: vec![Type::I64] };
    let subst = constructor_target_substitution(&pattern, &target).unwrap();
    assert!(subst.same_as(&Substitution::from_pairs(vec![(param(50, 0), Type::I64)])));

    let other = Type::Struct { id: DefId::new(0, 51), args: vec![Type::I64] };
    assert!(constructor_target_substitution(&pattern, &other).is_none());

    let exact = HirImplReceiverPattern::Exact(Type::Struct {
        id: nominal,
        args: vec![Type::Generic(param(50, 0))],
    });
    assert!(constructor_target_substitution(&exact, &target).is_none());
}

#[test]
fn do_expression_reads_an_indented_block() {
    let tokens = lex("do\n    x <- first!\n    pure x\n").unwrap();
    let (next, operand) = do_expression(&tokens, 0, Ctx { indent: 0, inside_args: false }).unwrap();
    assert!(next > 0 && next <= tokens.len());
    let Operand::Match(m) = operand else {
        panic!("a do block expands to a match");
    };
    let entries = m.do_syntax.as_ref().unwrap();
    assert_eq!(entries.len(), 2);
    assert!(matches!(entries[0], DoStatement::Bind(..)));
    assert!(matches!(entries[1], DoStatement::Statement(..)));
}

#[test]
fn do_expression_refuses_what_is_not_a_do_block() {
    let tokens = lex("pure x\n").unwrap();
    assert!(do_expression(&tokens, 0, Ctx { indent: 0, inside_args: false }).is_err());

    let tokens = lex("do\npure x\n").unwrap();
    match do_expression(&tokens, 0, Ctx { indent: 0, inside_args: false }) {
        Err(ParseError::HardError(message, span)) => {
            assert_eq!(message, "Expected an indented do block");
            assert_eq!((span.start, span.end), (0, 2));
        }
        other => panic!("expected a hard error, got {other:?}"),
    }
}

#[test]
fn do_expression_expands_binds_assignments_and_operations() {
    let tokens = lex("do\n    x <- first!\n    _ <- second x\n    total = x + 1\n    pure total\n").unwrap();
    let (end, operand) = do_expression(&tokens, 0, Ctx { indent: 0, inside_args: false }).unwrap();
    assert_eq!(end, tokens.len() - 1);
    let rock_lib::ast::Operand::Match(m) = operand else {
        panic!("expected the expanded match");
    };
    let entries = m.do_syntax.as_ref().unwrap();
    assert_eq!(entries.len(), 4);
    assert!(matches!(entries[0], DoStatement::Bind(..)));
    assert!(matches!(entries[1], DoStatement::Bind(..)));
    assert!(matches!(entries[2], DoStatement::Statement(rock_lib::ast::Statement::Assignment(_), _)));
    assert!(matches!(entries[3], DoStatement::Statement(rock_lib::ast::Statement::Expression(_), _)));
    assert_eq!(m.arms.len(), 1);
    assert_eq!(m.arms[0].body.statements.len(), 1);
}

#[test]
fn seeding_adds_no_key_beyond_the_receiver_and_the_positional_generics() {
    let nominal = DefId::new(0, 43);
    let imp = HirImpl {
        id: DefId::new(0, 42),
        type_generics: vec![decl(42, 0), decl(42, 1)],
        receiver_pattern: HirImplReceiverPattern::Exact(Type::Struct {
            id: nominal,
            args: vec![Type::Generic(param(42, 0))],
        }),
        trait_id: None,
        trait_arg_types: Vec::new(),
        bounds: Vec::new(),
    };
    let receiver = Type::Struct { id: nominal, args: vec![Type::U8] };
    let mut subst = Substitution::from_pairs(vec![(param(9, 0), Type::Bool)]);
    seed_receiver_substitution_from_impl(&imp, &receiver, &mut subst);
    let expected = Substitution::from_pairs(vec![(param(9, 0), Type::Bool), (param(42, 0), Type::U8)]);
    assert!(subst.same_as(&expected));
}
