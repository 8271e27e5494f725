use rock_lib::bindings::MethodSignature;
use rock_lib::callable::SelectedMethod;
use rock_lib::hir::{GenericParamDecl, HirMethodCallTarget};
use rock_lib::hir_expr::{HirExpr, HirExprKind, Span};
use rock_lib::ids::{DefId, GenericParamId};
use rock_lib::subst::Substitution;
use rock_lib::types::{CallableKind, FunctionSafety, Kind, Type};
use rock_lib::value_call::{ValueCallAnswer, ValueCallCheck, ValueCallRequest};

fn span(start: u32) -> Span {
    Span { start, end: start + 1 }
}

fn var(name: &str, ty: Type, at: u32) -> HirExpr {
    HirExpr { ty, kind: HirExprKind::Var(name.to_string()), span: span(at) }
}

fn call(callee: HirExpr, args: Vec<HirExpr>, ty: Type) -> HirExpr {
    HirExpr { ty, kind: HirExprKind::Call(Box::new(callee), args), span: span(0) }
}

fn function(params: Vec<Type>, ret: Type, safety: FunctionSafety) -> Type {
    Type::Function {
        params,
        ret: Box::new(ret),
        safety,
        callable_kind: CallableKind::Fn,
        captures: Vec::new(),
    }
}

fn done(request: ValueCallRequest) -> (HirExpr, Vec<String>) {
    match request {
        ValueCallRequest::Done { expr, errors } => {
            (expr, errors.into_iter().map(|e| e.message).collect())
        }
        other => panic!("expected the check to be over, got {other:?}"),
    }
}

fn begin(expr: HirExpr, strict: bool, unsafe_context: bool) -> (ValueCallCheck, ValueCallRequest) {
    ValueCallCheck::start(expr, strict, unsafe_context)
}

#[test]
fn anything_but_a_call_is_handed_back() {
    let (_, request) = begin(var("f", Type::Bool, 3), true, false);
    let (expr, errors) = done(request);
    assert!(matches!(expr.kind, HirExprKind::Var(ref name) if name == "f"));
    assert!(errors.is_empty());
}

#[test]
fn a_direct_call_checks_arguments_and_result() {
    let callee_ty = Type::TypeVar(4);
    let expr = call(var("f", callee_ty.clone(), 1), vec![var("x", Type::I64, 2)], Type::TypeVar(9));
    let (check, request) = begin(expr, true, false);
    assert!(matches!(request, ValueCallRequest::ResolveType(Type::TypeVar(4))));

    let resolved = Type::Reference {
        mutable: false,
        inner: Box::new(function(vec![Type::I64], Type::Bool, FunctionSafety::Safe)),
    };
    let (check, request) = check.step(ValueCallAnswer::Type(resolved.clone()));
    let args = match request {
        ValueCallRequest::CheckArguments { callee, args } => {
            assert_eq!(callee.ty, function(vec![Type::I64], Type::Bool, FunctionSafety::Safe));
            args
        }
        other => panic!("expected the arguments to be checked, got {other:?}"),
    };
    assert_eq!(args.len(), 1);

    let (check, request) = check.step(ValueCallAnswer::Arguments { args, errors: Vec::new() });
    match &request {
        ValueCallRequest::Unify(ret, ty) => {
            assert_eq!(*ret, Type::Bool);
            assert_eq!(*ty, Type::TypeVar(9));
        }
        other => panic!("expected a unification, got {other:?}"),
    }
    let (_, request) = check.step(ValueCallAnswer::Unified(Ok(())));
    let (expr, errors) = done(request);
    assert!(errors.is_empty());
    match expr.kind {
        HirExprKind::Call(callee, args) => {
            assert_eq!(callee.ty, resolved);
            assert_eq!(args.len(), 1);
        }
        other => panic!("expected the call to stay a call, got {other:?}"),
    }
}

#[test]
fn a_direct_call_with_the_wrong_number_of_arguments_is_refused() {
    let expr = call(var("f", Type::TypeVar(4), 1), vec![var("x", Type::I64, 2)], Type::Unit);
    let (check, _) = begin(expr, true, false);
    let twelve = vec![Type::I64; 12];
    let (_, request) = check.step(ValueCallAnswer::Type(function(twelve, Type::Unit, FunctionSafety::Safe)));
    let (expr, errors) = done(request);
    assert_eq!(errors, vec!["function expects 12 arguments but received 1".to_string()]);
    assert!(matches!(expr.kind, HirExprKind::Call(..)));
}

#[test]
fn unsafe_function_values_need_an_unsafe_context() {
    let unsafe_fn = function(vec![], Type::Unit, FunctionSafety::Unsafe);
    for unsafe_context in [false, true] {
        let expr = call(var("f", Type::TypeVar(4), 1), vec![], Type::Bool);
        let (check, _) = begin(expr, true, unsafe_context);
        let (check, _) = check.step(ValueCallAnswer::Type(unsafe_fn.clone()));
        let (check, _) = check.step(ValueCallAnswer::Arguments { args: vec![], errors: vec![] });
        let (_, request) = check.step(ValueCallAnswer::Unified(Err("expected bool, found ()".to_string())));
        let (_, errors) = done(request);
        let mut expected = vec!["expected bool, found ()".to_string()];
        if !unsafe_context {
            expected.push("Call to unsafe function value requires an unsafe block".to_string());
        }
        assert_eq!(errors, expected);
    }
}

#[test]
fn an_unresolved_callee_is_unified_with_the_call_only_when_strict() {
    let expr = call(var("f", Type::TypeVar(4), 1), vec![var("x", Type::U8, 2)], Type::Bool);
    let (check, _) = begin(expr, false, false);
    let (_, request) = check.step(ValueCallAnswer::Type(Type::TypeVar(4)));
    let (_, errors) = done(request);
    assert!(errors.is_empty());

    let expr = call(var("f", Type::TypeVar(4), 1), vec![var("x", Type::U8, 2)], Type::Bool);
    let (check, _) = begin(expr, true, false);
    let (check, request) = check.step(ValueCallAnswer::Type(Type::TypeVar(4)));
    match &request {
        ValueCallRequest::Unify(callee, signature) => {
            assert_eq!(*callee, Type::TypeVar(4));
            assert_eq!(*signature, function(vec![Type::U8], Type::Bool, FunctionSafety::Safe));
        }
        other => panic!("expected a unification, got {other:?}"),
    }
    let (check, request) = check.step(ValueCallAnswer::Unified(Ok(())));
    assert!(matches!(request, ValueCallRequest::ResolveType(Type::TypeVar(4))));
    let (_, request) = check.step(ValueCallAnswer::Type(function(vec![], Type::Bool, FunctionSafety::Safe)));
    let (_, errors) = done(request);
    assert_eq!(errors, vec!["function expects 0 arguments but received 1".to_string()]);
}

#[test]
fn a_value_no_protocol_answers_is_not_callable() {
    let point = Type::Struct { id: DefId::new(0, 30), args: vec![] };
    let expr = call(var("p", point.clone(), 1), vec![], Type::Unit);
    let (check, _) = begin(expr, true, false);
    let (check, request) = check.step(ValueCallAnswer::Type(point.clone()));
    assert!(matches!(request, ValueCallRequest::ReceiverCandidates(_)));
    let (check, request) = check.step(ValueCallAnswer::Candidates(vec![]));
    assert!(matches!(request, ValueCallRequest::SelectCallable(ref cs) if cs.is_empty()));
    let (check, request) = check.step(ValueCallAnswer::Selection(Ok(None)));
    assert!(matches!(request, ValueCallRequest::DisplayType(ref t) if *t == point));
    let (_, request) = check.step(ValueCallAnswer::Text("Point".to_string()));
    let (_, errors) = done(request);
    assert_eq!(errors, vec!["value of type Point is not callable".to_string()]);

    let expr = call(var("p", point.clone(), 1), vec![], Type::Unit);
    let (check, _) = begin(expr, false, false);
    let (check, _) = check.step(ValueCallAnswer::Type(point));
    let (check, _) = check.step(ValueCallAnswer::Candidates(vec![]));
    let (_, request) = check.step(ValueCallAnswer::Selection(Ok(None)));
    assert!(done(request).1.is_empty());
}

fn param(index: u32) -> GenericParamId {
    GenericParamId { owner: DefId::new(0, 77), index }
}

fn member(is_unsafe: bool) -> SelectedMethod {
    let owner = Substitution::from_pairs(vec![(param(1), Type::Bool)]);
    SelectedMethod {
        target: HirMethodCallTarget::impl_method(DefId::new(0, 70), DefId::new(0, 71), None),
        impl_def: None,
        pending_impl_bounds: Vec::new(),
        function: Some(MethodSignature {
            id: DefId::new(0, 71),
            name: "call".to_string(),
            is_unsafe,
            self_receiver: false,
            generic_params: vec![
                GenericParamDecl { id: param(0), kind: Kind::Type },
                GenericParamDecl { id: param(1), kind: Kind::Type },
            ],
            params: vec![],
            is_method: true,
            ret_type: Type::Generic(param(0)),
            generic_bounds: Vec::new(),
        }),
        owner_substitution: owner,
        substituted_params: vec![Type::Tuple(vec![Type::Generic(param(0)), Type::Generic(param(1))])],
        return_type: Type::Generic(param(0)),
        receiver: var("p", Type::Unit, 1),
    }
}

#[test]
fn a_protocol_member_becomes_a_method_call() {
    let point = Type::Struct { id: DefId::new(0, 30), args: vec![] };
    let expr = call(
        var("p", point.clone(), 1),
        vec![var("a", Type::I64, 2), var("b", Type::Bool, 3)],
        Type::TypeVar(20),
    );
    let (check, _) = begin(expr, true, false);
    let (check, _) = check.step(ValueCallAnswer::Type(point.clone()));
    let (check, _) = check.step(ValueCallAnswer::Candidates(vec![]));
    let (check, request) = check.step(ValueCallAnswer::Selection(Ok(Some(member(false)))));
    assert!(matches!(request, ValueCallRequest::FreshTypeVar(Kind::Type, s) if s == span(0)));

    let (check, request) = check.step(ValueCallAnswer::Type(Type::TypeVar(8)));
    match &request {
        ValueCallRequest::Unify(expected, packed) => {
            assert_eq!(*expected, Type::Tuple(vec![Type::TypeVar(8), Type::Bool]));
            assert_eq!(*packed, Type::Tuple(vec![Type::I64, Type::Bool]));
        }
        other => panic!("expected the arguments to be unified, got {other:?}"),
    }
    let (check, request) = check.step(ValueCallAnswer::Unified(Ok(())));
    match &request {
        ValueCallRequest::Unify(result, ty) => {
            assert_eq!(*result, Type::TypeVar(8));
            assert_eq!(*ty, Type::TypeVar(20));
        }
        other => panic!("expected the result to be unified, got {other:?}"),
    }
    let (check, request) = check.step(ValueCallAnswer::Unified(Ok(())));
    match &request {
        ValueCallRequest::Complete { subst, result, .. } => {
            assert_eq!(subst.get(&param(0)), Some(&Type::TypeVar(8)));
            assert_eq!(subst.get(&param(1)), Some(&Type::Bool));
            assert_eq!(*result, Type::TypeVar(8));
        }
        other => panic!("expected the call to be completed, got {other:?}"),
    }
    let target = HirMethodCallTarget::impl_method(DefId::new(0, 70), DefId::new(0, 71), None);
    let (_, request) = check.step(ValueCallAnswer::Completed {
        target,
        receiver: var("p", Type::Reference { mutable: false, inner: Box::new(point) }, 1),
        result_ty: Type::I64,
    });
    let (expr, errors) = done(request);
    assert!(errors.is_empty());
    assert_eq!(expr.ty, Type::I64);
    match expr.kind {
        HirExprKind::MethodCall(_, name, args, self_receiver, target) => {
            assert_eq!(name, "call");
            assert!(!self_receiver);
            assert!(target.is_some());
            assert_eq!(args.len(), 1);
            assert!(matches!(args[0].kind, HirExprKind::TupleLiteral(ref items) if items.len() == 2));
        }
        other => panic!("expected a method call, got {other:?}"),
    }
}

#[test]
fn unsafe_callable_members_need_an_unsafe_context() {
    let point = Type::Struct { id: DefId::new(0, 30), args: vec![] };
    let expr = call(var("p", point.clone(), 1), vec![], Type::Unit);
    let (check, _) = begin(expr, true, false);
    let (check, _) = check.step(ValueCallAnswer::Type(point));
    let (check, _) = check.step(ValueCallAnswer::Candidates(vec![]));
    let (_, request) = check.step(ValueCallAnswer::Selection(Ok(Some(member(true)))));
    let (expr, errors) = done(request);
    assert_eq!(errors, vec!["Call to unsafe callable requires an unsafe block".to_string()]);
    assert!(matches!(expr.kind, HirExprKind::Call(..)));
}

#[test]
fn failed_unifications_report_the_rendered_failure() {
    let point = Type::Struct { id: DefId::new(0, 30), args: vec![] };
    let expr = call(var("p", point.clone(), 1), vec![var("a", Type::I64, 5)], Type::Unit);
    let (check, _) = begin(expr, true, false);
    let (check, _) = check.step(ValueCallAnswer::Type(point));
    let (check, _) = check.step(ValueCallAnswer::Candidates(vec![]));
    let (check, _) = check.step(ValueCallAnswer::Selection(Ok(Some(member(false)))));
    let (check, _) = check.step(ValueCallAnswer::Type(Type::TypeVar(8)));
    let (_, request) = check.step(ValueCallAnswer::Unified(Err("mismatched arguments".to_string())));
    let (_, request_errors) = done(request);
    assert_eq!(request_errors, vec!["mismatched arguments".to_string()]);
}

#[test]
fn an_answer_of_the_wrong_sort_ends_the_check() {
    let expr = call(var("f", Type::TypeVar(4), 1), vec![], Type::Unit);
    let (check, _) = begin(expr, true, false);
    let (_, request) = check.step(ValueCallAnswer::Text("unexpected".to_string()));
    let (expr, errors) = done(request);
    assert!(errors.is_empty());
    assert!(matches!(expr.kind, HirExprKind::Call(..)));
}
