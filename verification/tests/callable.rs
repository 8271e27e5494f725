use rock_lib::callable::{
    available_bounds, callable_args_type, concrete_candidate_allowed_exec, native_callable_adapter,
    native_signature, pack_call_arguments, refresh_autoref_mut, CallableProtocol,
    ReceiverCandidate, SelectedMethod, SelectionDiagnostic, SelectionService,
};
use rock_lib::hir::{
    HirImpl, HirImplReceiverPattern, HirMethodCallTarget, HirSelectedTraitMember, TraitBound,
};
use rock_lib::hir_expr::{HirExpr, HirExprKind, HirVarTarget, Span};
use rock_lib::ids::DefId;
use rock_lib::subst::Substitution;
use rock_lib::types::{CallableKind, FunctionSafety, Type};

fn def_id(index: u32) -> DefId {
    DefId::new(0, index)
}

fn span() -> Span {
    Span { start: 1, end: 9 }
}

fn var(name: &str, ty: Type) -> HirExpr {
    HirExpr { ty, kind: HirExprKind::Var(name.to_owned()), span: span() }
}

fn closure_type(params: Vec<Type>, ret: Type, kind: CallableKind) -> Type {
    Type::function_with_metadata(params, ret, FunctionSafety::Safe, kind, Vec::new())
}

fn protocols() -> Vec<CallableProtocol> {
    vec![
        CallableProtocol { kind: CallableKind::Fn, trait_id: def_id(1), member_id: def_id(11) },
        CallableProtocol { kind: CallableKind::FnMut, trait_id: def_id(2), member_id: def_id(12) },
        CallableProtocol { kind: CallableKind::FnOnce, trait_id: def_id(3), member_id: def_id(13) },
    ]
}

fn protocol_target(trait_index: u32, member_index: u32) -> HirMethodCallTarget {
    HirMethodCallTarget::impl_method(
        def_id(90),
        def_id(member_index),
        Some(HirSelectedTraitMember {
            trait_id: def_id(trait_index),
            member_id: def_id(member_index),
            trait_args: Vec::new(),
        }),
    )
}

#[test]
fn native_signature_sees_through_references_within_their_protocol() {
    let fn_mut = closure_type(vec![Type::I32], Type::Bool, CallableKind::FnMut);
    let (params, ret, kind, safety) = native_signature(&fn_mut).unwrap();
    assert_eq!(params, &vec![Type::I32]);
    assert_eq!(ret, &Type::Bool);
    assert_eq!(kind, CallableKind::FnMut);
    assert_eq!(safety, FunctionSafety::Safe);

    let shared = Type::Reference { mutable: false, inner: Box::new(fn_mut.clone()) };
    assert!(native_signature(&shared).is_none());
    let exclusive = Type::Reference { mutable: true, inner: Box::new(fn_mut) };
    assert!(native_signature(&exclusive).is_some());
    assert!(native_signature(&Type::I32).is_none());
}

#[test]
fn callable_arguments_pack_into_unit_single_or_tuple() {
    assert_eq!(callable_args_type(&vec![]), Type::Unit);
    assert_eq!(callable_args_type(&vec![Type::I64]), Type::I64);
    assert_eq!(
        callable_args_type(&vec![Type::I64, Type::Bool]),
        Type::Tuple(vec![Type::I64, Type::Bool])
    );

    let none = pack_call_arguments(Vec::new(), span());
    assert_eq!(none.ty, Type::Unit);
    assert!(matches!(none.kind, HirExprKind::Unit));
    let one = pack_call_arguments(vec![var("a", Type::I64)], span());
    assert!(matches!(&one.kind, HirExprKind::Var(name) if name == "a"));
    let two = pack_call_arguments(vec![var("a", Type::I64), var("b", Type::Bool)], span());
    assert_eq!(two.ty, Type::Tuple(vec![Type::I64, Type::Bool]));
    assert!(matches!(&two.kind, HirExprKind::TupleLiteral(items) if items.len() == 2));
}

#[test]
fn native_adapter_borrows_the_receiver_and_unpacks_the_arguments() {
    let callee_ty = closure_type(vec![Type::I64, Type::Bool], Type::U8, CallableKind::FnMut);
    let receiver = var("f", callee_ty.clone());
    let packed = var("args", Type::Tuple(vec![Type::I64, Type::Bool]));
    let adapter = native_callable_adapter(
        &receiver,
        &vec![packed],
        &protocol_target(2, 12),
        &Type::U8,
        span(),
        &protocols(),
    )
    .unwrap();
    assert_eq!(adapter.ty, Type::U8);
    let HirExprKind::Call(lambda, outer_args) = &adapter.kind else {
        panic!("expected an applied adapter: {adapter:?}");
    };
    assert_eq!(outer_args.len(), 2);
    assert!(matches!(&outer_args[0].kind, HirExprKind::Ref(true, _)));
    assert_eq!(
        outer_args[0].ty,
        Type::Reference { mutable: true, inner: Box::new(callee_ty) }
    );
    let HirExprKind::Lambda { params, body } = &lambda.kind else {
        panic!("expected a lambda");
    };
    assert_eq!(params.len(), 2);
    assert_eq!(params[0].name, "__call_receiver");
    assert_eq!(params[1].name, "__call_args");
    let rock_lib::hir_expr::HirStmt::Expr(call) = &body.stmts[0];
    let HirExprKind::Call(callee, arguments) = &call.kind else {
        panic!("expected the inner call");
    };
    assert!(matches!(
        &callee.kind,
        HirExprKind::ResolvedVar(v) if v.target == HirVarTarget::Local(params[0].local_id)
    ));
    assert_eq!(arguments.len(), 2);
    assert!(matches!(&arguments[1].kind, HirExprKind::TupleIndex(_, 1)));
    assert_eq!(arguments[1].ty, Type::Bool);
}

#[test]
fn native_adapter_moves_the_receiver_for_once_calls() {
    let callee_ty = closure_type(vec![Type::I64], Type::U8, CallableKind::FnOnce);
    let adapter = native_callable_adapter(
        &var("f", callee_ty.clone()),
        &vec![var("x", Type::I64)],
        &protocol_target(3, 13),
        &Type::U8,
        span(),
        &protocols(),
    )
    .unwrap();
    let HirExprKind::Call(_, outer_args) = &adapter.kind else {
        panic!("expected an applied adapter");
    };
    assert_eq!(outer_args[0].ty, callee_ty);
    assert!(matches!(&outer_args[0].kind, HirExprKind::Var(_)));
}

#[test]
fn native_adapter_requires_a_protocol_member_and_a_function_value() {
    let callee_ty = closure_type(vec![Type::I64], Type::U8, CallableKind::Fn);
    assert!(native_callable_adapter(
        &var("f", callee_ty.clone()),
        &vec![var("x", Type::I64)],
        &protocol_target(4, 14),
        &Type::U8,
        span(),
        &protocols(),
    )
    .is_none());
    assert!(native_callable_adapter(
        &var("f", Type::I64),
        &vec![var("x", Type::I64)],
        &protocol_target(1, 11),
        &Type::U8,
        span(),
        &protocols(),
    )
    .is_none());
    assert!(native_callable_adapter(
        &var("f", callee_ty),
        &vec![],
        &protocol_target(1, 11),
        &Type::U8,
        span(),
        &protocols(),
    )
    .is_none());
}

#[test]
fn available_bounds_add_the_native_bound_and_keep_only_the_protocol_trait() {
    let fn_ty = closure_type(vec![Type::I64, Type::Bool], Type::U8, CallableKind::Fn);
    let other = TraitBound { trait_id: def_id(40), type_args: vec![] };
    let kept = available_bounds(vec![other], &fn_ty, protocols()[1]);
    assert_eq!(kept.len(), 1);
    assert_eq!(kept[0].trait_id, def_id(2));
    assert_eq!(kept[0].type_args, vec![Type::Tuple(vec![Type::I64, Type::Bool]), Type::U8]);

    let once = closure_type(vec![], Type::U8, CallableKind::FnOnce);
    assert!(available_bounds(vec![], &once, protocols()[0]).is_empty());
}

fn selected(trait_index: u32, member_index: u32, impl_def: Option<HirImpl>) -> SelectedMethod {
    SelectedMethod {
        target: protocol_target(trait_index, member_index),
        impl_def,
        pending_impl_bounds: Vec::new(),
        function: None,
        owner_substitution: Substitution::new(),
        substituted_params: Vec::new(),
        return_type: Type::Unit,
        receiver: HirExpr { ty: Type::Unit, kind: HirExprKind::Unit, span: Span { start: 0, end: 0 } },
    }
}

#[test]
fn concrete_candidates_must_be_the_protocol_member_of_a_matching_impl() {
    let ty = Type::Struct { id: def_id(60), args: vec![] };
    let matching_impl = HirImpl {
        id: def_id(90),
        type_generics: vec![],
        receiver_pattern: HirImplReceiverPattern::Exact(ty.clone()),
        trait_id: Some(def_id(1)),
        trait_arg_types: vec![],
        bounds: vec![],
    };
    assert!(concrete_candidate_allowed_exec(&ty, &selected(1, 11, None), protocols()[0]));
    assert!(concrete_candidate_allowed_exec(
        &ty,
        &selected(1, 11, Some(matching_impl)),
        protocols()[0]
    ));
    assert!(!concrete_candidate_allowed_exec(&ty, &selected(1, 99, None), protocols()[0]));
    assert!(!concrete_candidate_allowed_exec(&ty, &selected(2, 12, None), protocols()[0]));
    let other_impl = HirImpl {
        id: def_id(91),
        type_generics: vec![],
        receiver_pattern: HirImplReceiverPattern::Exact(Type::Bool),
        trait_id: Some(def_id(1)),
        trait_arg_types: vec![],
        bounds: vec![],
    };
    assert!(!concrete_candidate_allowed_exec(
        &ty,
        &selected(1, 11, Some(other_impl)),
        protocols()[0]
    ));
}

fn member_name(trait_id: DefId, _member: DefId) -> Option<String> {
    match trait_id.local {
        1 => Some("call".to_owned()),
        2 => Some("call_mut".to_owned()),
        3 => Some("call_once".to_owned()),
        _ => None,
    }
}

fn with_supertraits(_: &Type, own: &Vec<TraitBound>) -> Vec<TraitBound> {
    own.iter()
        .map(|b| TraitBound { trait_id: b.trait_id, type_args: b.type_args.clone() })
        .collect()
}

fn no_bound_method(
    _: &ReceiverCandidate,
    _: &Vec<TraitBound>,
    name: &str,
    _: &Type,
) -> Result<SelectedMethod, SelectionDiagnostic> {
    Err(SelectionDiagnostic::MethodNotFound { name: name.to_owned() })
}

fn no_bounds(_: &Type) -> Vec<TraitBound> {
    Vec::new()
}

fn protocol_impls(_: &ReceiverCandidate, name: &str) -> Vec<SelectedMethod> {
    match name {
        "call_mut" => vec![selected(2, 12, None)],
        "call_once" => vec![selected(3, 13, None)],
        _ => Vec::new(),
    }
}

#[test]
fn select_callable_method_refuses_fnmut_without_mutable_receiver() {
    let ty = Type::Struct { id: def_id(60), args: vec![] };
    let candidates = vec![ReceiverCandidate { expr: var("s", ty), can_autoref_mut: false }];
    let service = SelectionService {
        member_name_by_id: member_name,
        trait_bounds_with_supertraits: with_supertraits,
        select_bound_method: no_bound_method,
        select_concrete_method_candidates: protocol_impls,
    };
    let result = service.select_callable_method(&candidates, &protocols(), no_bounds, None);
    assert!(matches!(result, Err(SelectionDiagnostic::ReceiverMismatch { .. })));
}

#[test]
fn select_callable_method_prefers_the_first_protocol_that_answers() {
    let ty = Type::Struct { id: def_id(60), args: vec![] };
    let candidates = vec![ReceiverCandidate { expr: var("s", ty), can_autoref_mut: true }];
    let service = SelectionService {
        member_name_by_id: member_name,
        trait_bounds_with_supertraits: with_supertraits,
        select_bound_method: no_bound_method,
        select_concrete_method_candidates: protocol_impls,
    };
    let result = service
        .select_callable_method(&candidates, &protocols(), no_bounds, None)
        .unwrap()
        .unwrap();
    assert_eq!(result.target.trait_id(), Some(def_id(2)));

    let only_once = service
        .select_callable_method(&candidates, &protocols(), no_bounds, Some("call_once"))
        .unwrap()
        .unwrap();
    assert_eq!(only_once.target.trait_id(), Some(def_id(3)));
}

#[test]
fn select_callable_method_reports_ambiguity_and_missing_members() {
    let ty = Type::Struct { id: def_id(60), args: vec![] };
    let candidates = vec![ReceiverCandidate { expr: var("s", ty), can_autoref_mut: true }];
    let ambiguous = SelectionService {
        member_name_by_id: member_name,
        trait_bounds_with_supertraits: with_supertraits,
        select_bound_method: no_bound_method,
        select_concrete_method_candidates: |_: &ReceiverCandidate, _: &str| {
            vec![selected(1, 11, None), selected(1, 11, None)]
        },
    }
    .select_callable_method(&candidates, &protocols(), no_bounds, None);
    assert!(matches!(
        ambiguous,
        Err(SelectionDiagnostic::AmbiguousCandidates { ref operation, .. }) if operation == "function call"
    ));

    let missing = SelectionService {
        member_name_by_id: |_: DefId, _: DefId| None,
        trait_bounds_with_supertraits: with_supertraits,
        select_bound_method: no_bound_method,
        select_concrete_method_candidates: protocol_impls,
    }
    .select_callable_method(&candidates, &protocols(), no_bounds, None);
    assert!(matches!(
        missing,
        Err(SelectionDiagnostic::TraitMemberIdMissing { trait_id, .. }) if trait_id == def_id(1)
    ));
}

#[test]
fn select_callable_method_uses_bounds_for_function_values_only() {
    let fn_ty = closure_type(vec![Type::I64], Type::U8, CallableKind::Fn);
    let candidates = vec![ReceiverCandidate { expr: var("f", fn_ty), can_autoref_mut: false }];
    let none = SelectionService {
        member_name_by_id: member_name,
        trait_bounds_with_supertraits: with_supertraits,
        select_bound_method: no_bound_method,
        select_concrete_method_candidates: |_: &ReceiverCandidate, _: &str| {
            vec![selected(1, 11, None)]
        },
    }
    .select_callable_method(&candidates, &protocols(), no_bounds, None);
    assert!(matches!(none, Ok(None)));

    let via_bound = SelectionService {
        member_name_by_id: member_name,
        trait_bounds_with_supertraits: with_supertraits,
        select_bound_method: |probe: &ReceiverCandidate, bounds: &Vec<TraitBound>, _: &str, _: &Type| {
            assert!(probe.can_autoref_mut);
            if bounds.len() == 1 {
                Ok(selected(bounds[0].trait_id.local, 10 + bounds[0].trait_id.local, None))
            } else {
                Err(SelectionDiagnostic::MethodNotFound { name: String::new() })
            }
        },
        select_concrete_method_candidates: protocol_impls,
    }
    .select_callable_method(&candidates, &protocols(), no_bounds, None)
    .unwrap()
    .unwrap();
    assert_eq!(via_bound.target.trait_id(), Some(def_id(1)));
}

#[test]
fn candidates_may_borrow_mutably_when_mutable_or_temporary() {
    let mut place = ReceiverCandidate { expr: var("s", Type::I64), can_autoref_mut: false };
    refresh_autoref_mut(&mut place, false);
    assert!(!place.can_autoref_mut);
    refresh_autoref_mut(&mut place, true);
    assert!(place.can_autoref_mut);

    let mut reference = ReceiverCandidate {
        expr: var("r", Type::Reference { mutable: true, inner: Box::new(Type::I64) }),
        can_autoref_mut: false,
    };
    refresh_autoref_mut(&mut reference, false);
    assert!(reference.can_autoref_mut);

    let mut temporary = ReceiverCandidate {
        expr: HirExpr { ty: Type::Unit, kind: HirExprKind::Unit, span: span() },
        can_autoref_mut: false,
    };
    refresh_autoref_mut(&mut temporary, false);
    assert!(temporary.can_autoref_mut);
}

#[test]
fn fn_values_implement_every_weaker_protocol_with_the_same_pack() {
    let fn_value = closure_type(vec![Type::I64, Type::U8], Type::Bool, CallableKind::Fn);
    let mut packs = Vec::new();
    for protocol in protocols() {
        let bounds = available_bounds(Vec::new(), &fn_value, protocol);
        assert_eq!(bounds.len(), 1, "{protocol:?}");
        assert_eq!(bounds[0].trait_id, protocol.trait_id);
        packs.push(bounds[0].type_args.clone());
    }
    assert_eq!(packs[0], vec![Type::Tuple(vec![Type::I64, Type::U8]), Type::Bool]);
    assert_eq!(packs[0], packs[1]);
    assert_eq!(packs[1], packs[2]);

    let fn_mut_value = closure_type(vec![], Type::Unit, CallableKind::FnMut);
    assert!(available_bounds(Vec::new(), &fn_mut_value, protocols()[0]).is_empty());
    assert_eq!(available_bounds(Vec::new(), &fn_mut_value, protocols()[1]).len(), 1);
    assert_eq!(available_bounds(Vec::new(), &fn_mut_value, protocols()[2]).len(), 1);
}

#[test]
fn packed_arguments_have_the_pack_type_of_their_types() {
    let args = vec![var("a", Type::I64), var("b", Type::Bool)];
    let types: Vec<Type> = args.iter().map(|a| a.ty.clone()).collect();
    let packed = pack_call_arguments(args, span());
    assert_eq!(packed.ty, callable_args_type(&types));

    let one = vec![var("a", Type::Char)];
    assert_eq!(pack_call_arguments(one, span()).ty, callable_args_type(&vec![Type::Char]));
    assert_eq!(pack_call_arguments(vec![], span()).ty, callable_args_type(&vec![]));
}

fn inherent_call_only(_: &ReceiverCandidate, name: &str) -> Vec<SelectedMethod> {
    let mut inherent = selected(1, 11, None);
    inherent.target = HirMethodCallTarget::impl_method(def_id(95), def_id(96), None);
    match name {
        "call" | "call_mut" | "call_once" => vec![inherent],
        _ => Vec::new(),
    }
}

#[test]
fn select_callable_method_never_selects_an_inherent_method_of_the_same_name() {
    let ty = Type::Struct { id: def_id(60), args: vec![] };
    let candidates = vec![ReceiverCandidate { expr: var("s", ty), can_autoref_mut: true }];
    let service = SelectionService {
        member_name_by_id: member_name,
        trait_bounds_with_supertraits: with_supertraits,
        select_bound_method: no_bound_method,
        select_concrete_method_candidates: inherent_call_only,
    };
    let result = service.select_callable_method(&candidates, &protocols(), no_bounds, None);
    assert!(matches!(result, Ok(None)));
}
