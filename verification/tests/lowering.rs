use rock_lib::callable::{CallableProtocol, ReceiverCandidate, SelectedMethod, SelectionDiagnostic};
use rock_lib::callable_lowering::{
    finish_callable_call, lower_callable_call, CandidateAnswer, CandidateRequest, CandidateSearch,
    LoweredCall, MethodCallTypes,
};
use rock_lib::hir::{HirMethodCallTarget, ParamBounds, TraitBound};
use rock_lib::hir_expr::{HirExpr, HirExprKind, Span};
use rock_lib::ids::{DefId, GenericParamId};
use rock_lib::mono_bounds::{NativeBoundAnswer, NativeBoundInference, NativeBoundRequest};
use rock_lib::subst::Substitution;
use rock_lib::types::{CallableKind, FunctionSafety, Type};

fn def_id(index: u32) -> DefId {
    DefId::new(0, index)
}

fn span(start: u32) -> Span {
    Span { start, end: start + 2 }
}

fn var(name: &str, ty: Type, at: u32) -> HirExpr {
    HirExpr { ty, kind: HirExprKind::Var(name.to_string()), span: span(at) }
}

fn fn_protocol() -> CallableProtocol {
    CallableProtocol { kind: CallableKind::Fn, trait_id: def_id(1), member_id: def_id(2) }
}

fn generic(index: u32) -> GenericParamId {
    GenericParamId { owner: def_id(40), index }
}

fn function(params: Vec<Type>, ret: Type) -> Type {
    Type::Function {
        params,
        ret: Box::new(ret),
        safety: FunctionSafety::Safe,
        callable_kind: CallableKind::Fn,
        captures: vec![],
    }
}

#[test]
fn native_bounds_match_packed_parameters_and_result() {
    let bounds = vec![
        ParamBounds { param: generic(0), bounds: vec![] },
        ParamBounds {
            param: generic(1),
            bounds: vec![
                TraitBound { trait_id: def_id(9), type_args: vec![Type::Bool, Type::Bool] },
                TraitBound {
                    trait_id: def_id(1),
                    type_args: vec![Type::Generic(generic(2)), Type::Generic(generic(3))],
                },
            ],
        },
    ];
    let (inference, request) = NativeBoundInference::start(bounds, vec![fn_protocol()]);
    assert!(matches!(request, NativeBoundRequest::IsBound(p) if p == generic(0)));
    let (inference, request) = inference.step(NativeBoundAnswer::Bound(false));
    assert!(matches!(request, NativeBoundRequest::IsBound(p) if p == generic(1)));
    let (inference, request) = inference.step(NativeBoundAnswer::Bound(true));
    assert!(matches!(request, NativeBoundRequest::Apply(p) if p == generic(1)));

    let actual = Type::Reference {
        mutable: false,
        inner: Box::new(function(vec![Type::I64, Type::U8], Type::Bool)),
    };
    let (inference, request) = inference.step(NativeBoundAnswer::Type(actual));
    match &request {
        NativeBoundRequest::Extract(matches) => {
            assert_eq!(
                *matches,
                vec![
                    (Type::Generic(generic(2)), Type::Tuple(vec![Type::I64, Type::U8])),
                    (Type::Generic(generic(3)), Type::Bool),
                ]
            );
        }
        other => panic!("expected matches to be asked for, got {other:?}"),
    }
    let (_, request) = inference.step(NativeBoundAnswer::Extracted);
    assert!(matches!(request, NativeBoundRequest::Done));
}

#[test]
fn subjects_bound_to_other_types_ask_for_nothing() {
    let bounds = vec![ParamBounds {
        param: generic(0),
        bounds: vec![TraitBound { trait_id: def_id(1), type_args: vec![Type::Unit, Type::Unit] }],
    }];
    let (inference, _) = NativeBoundInference::start(bounds, vec![fn_protocol()]);
    let (inference, _) = inference.step(NativeBoundAnswer::Bound(true));
    let (_, request) = inference.step(NativeBoundAnswer::Type(Type::I64));
    assert!(matches!(request, NativeBoundRequest::Done));
}

fn selected() -> SelectedMethod {
    SelectedMethod {
        target: HirMethodCallTarget::impl_method(def_id(70), def_id(71), None),
        impl_def: None,
        pending_impl_bounds: vec![],
        function: None,
        owner_substitution: Substitution::new(),
        substituted_params: vec![],
        return_type: Type::Unit,
        receiver: var("f", Type::Unit, 11),
    }
}

#[test]
fn an_unbounded_inference_variable_has_no_callable_member() {
    let (search, request) = CandidateSearch::start(var("f", Type::TypeVar(3), 11), None);
    assert!(matches!(request, CandidateRequest::ResolveType(Type::TypeVar(3))));
    let (search, request) = search.step(CandidateAnswer::Type(Type::TypeVar(5)));
    assert!(matches!(request, CandidateRequest::VariableBounds(5)));
    let (_, request) = search.step(CandidateAnswer::Bounds(vec![]));
    assert!(matches!(request, CandidateRequest::Done { selected: None, error: None }));
}

#[test]
fn candidates_are_refreshed_before_selection() {
    let (search, _) = CandidateSearch::start(var("f", Type::Unit, 11), Some("call".to_string()));
    let (search, request) = search.step(CandidateAnswer::Type(Type::Unit));
    assert!(matches!(request, CandidateRequest::ReceiverCandidates(_)));
    let place = ReceiverCandidate { expr: var("f", Type::Unit, 11), can_autoref_mut: false };
    let temporary = ReceiverCandidate {
        expr: HirExpr { ty: Type::Unit, kind: HirExprKind::Unit, span: span(11) },
        can_autoref_mut: false,
    };
    let (search, request) =
        search.step(CandidateAnswer::Candidates(vec![(place, false), (temporary, false)]));
    match &request {
        CandidateRequest::SelectCallable { candidates, member_name } => {
            assert_eq!(member_name.as_deref(), Some("call"));
            assert!(!candidates[0].can_autoref_mut);
            assert!(candidates[1].can_autoref_mut);
        }
        other => panic!("expected a selection, got {other:?}"),
    }
    let (_, request) = search.step(CandidateAnswer::Selection(Ok(Some(selected()))));
    assert!(matches!(request, CandidateRequest::Done { selected: Some(_), error: None }));
}

#[test]
fn selection_failures_are_reported_at_the_receiver() {
    let (search, _) = CandidateSearch::start(var("f", Type::Unit, 11), None);
    let (search, _) = search.step(CandidateAnswer::Type(Type::Unit));
    let (search, _) = search.step(CandidateAnswer::Candidates(vec![]));
    let failure = SelectionDiagnostic::MethodNotFound { name: "call".to_string() };
    let (search, request) = search.step(CandidateAnswer::Selection(Err(failure)));
    assert!(matches!(request, CandidateRequest::DisplaySelectionError(_)));
    let (_, request) = search.step(CandidateAnswer::Text("no method `call`".to_string()));
    match request {
        CandidateRequest::Done { selected: None, error: Some(error) } => {
            assert_eq!(error.message, "no method `call`");
            assert_eq!(error.span, span(11));
        }
        other => panic!("expected a reported failure, got {other:?}"),
    }
}

#[test]
fn callable_calls_pack_their_arguments() {
    let call = lower_callable_call(selected(), vec![var("a", Type::I64, 1), var("b", Type::Bool, 2)]);
    assert_eq!(call.span, span(11));
    assert_eq!(call.args.len(), 1);
    assert_eq!(call.args[0].ty, Type::Tuple(vec![Type::I64, Type::Bool]));

    let call = lower_callable_call(selected(), vec![]);
    assert_eq!(call.args[0].ty, Type::Unit);
}

fn types(is_unsafe: bool) -> MethodCallTypes {
    MethodCallTypes {
        name: "call".to_string(),
        is_unsafe,
        self_receiver: false,
        ty: Type::I64,
        args: vec![var("a", Type::I64, 1)],
        target: HirMethodCallTarget::impl_method(def_id(70), def_id(71), None),
    }
}

#[test]
fn lowered_calls_become_method_calls_or_errors() {
    match finish_callable_call(span(11), var("f", Type::Unit, 11), Some(types(false)), false) {
        LoweredCall::Call(expr) => {
            assert_eq!(expr.ty, Type::I64);
            assert!(matches!(expr.kind, HirExprKind::MethodCall(_, ref name, _, false, Some(_)) if name == "call"));
        }
        other => panic!("expected a method call, got {other:?}"),
    }
    match finish_callable_call(span(11), var("f", Type::Unit, 11), Some(types(true)), false) {
        LoweredCall::Failed { span: at, error: Some(error) } => {
            assert_eq!(at, span(11));
            assert_eq!(error.message, "Call to unsafe callable requires an unsafe block");
        }
        other => panic!("expected an error, got {other:?}"),
    }
    assert!(matches!(
        finish_callable_call(span(11), var("f", Type::Unit, 11), Some(types(true)), true),
        LoweredCall::Call(_)
    ));
    assert!(matches!(
        finish_callable_call(span(11), var("f", Type::Unit, 11), None, false),
        LoweredCall::Failed { error: None, .. }
    ));
}
