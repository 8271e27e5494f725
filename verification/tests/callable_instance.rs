use rock_lib::bindings::MethodSignature;
use rock_lib::callable::{CallableProtocol, SelectedMethod};
use rock_lib::callable_instance::{CallableInstance, InstanceAnswer, InstanceRequest};
use rock_lib::hir::{HirImpl, HirImplReceiverPattern, HirMethodCallTarget, TraitBound};
use rock_lib::hir_expr::{HirExpr, HirExprKind, Span};
use rock_lib::ids::{DefId, GenericParamId};
use rock_lib::subst::Substitution;
use rock_lib::types::{CallableKind, Type};

fn def_id(index: u32) -> DefId {
    DefId::new(0, index)
}

fn owner_param() -> GenericParamId {
    GenericParamId { owner: def_id(90), index: 0 }
}

fn protocols() -> Vec<CallableProtocol> {
    vec![CallableProtocol { kind: CallableKind::Fn, trait_id: def_id(1), member_id: def_id(2) }]
}

fn member(from_impl: bool, params: Vec<Type>, ret: Type) -> SelectedMethod {
    let impl_def = if from_impl {
        Some(HirImpl {
            id: def_id(90),
            type_generics: vec![],
            receiver_pattern: HirImplReceiverPattern::Exact(Type::Unit),
            trait_id: None,
            trait_arg_types: vec![],
            bounds: vec![],
        })
    } else {
        None
    };
    SelectedMethod {
        target: HirMethodCallTarget::impl_method(def_id(90), def_id(91), None),
        impl_def,
        pending_impl_bounds: vec![],
        function: Some(MethodSignature {
            id: def_id(91),
            name: "apply".to_string(),
            is_unsafe: false,
            self_receiver: false,
            generic_params: vec![],
            params: params.clone(),
            is_method: true,
            ret_type: ret.clone(),
            generic_bounds: vec![],
        }),
        owner_substitution: Substitution::from_pairs(vec![(owner_param(), Type::Bool)]),
        substituted_params: params.into_iter().skip(1).collect(),
        return_type: ret,
        receiver: HirExpr { ty: Type::Unit, kind: HirExprKind::Unit, span: Span { start: 4, end: 9 } },
    }
}

fn finished(request: InstanceRequest) -> SelectedMethod {
    match request {
        InstanceRequest::Done(selected) => selected,
        other => panic!("expected the instantiation to be over, got {other:?}"),
    }
}

#[test]
fn members_outside_impls_are_left_alone() {
    let selected = member(false, vec![Type::TypeVar(1), Type::TypeVar(2)], Type::TypeVar(3));
    let (_, request) = CallableInstance::start(selected, protocols());
    let selected = finished(request);
    assert_eq!(selected.return_type, Type::TypeVar(3));
}

#[test]
fn members_without_inference_variables_are_left_alone() {
    let selected = member(true, vec![Type::TypeVar(1), Type::I64], Type::Bool);
    let (_, request) = CallableInstance::start(selected, protocols());
    let selected = finished(request);
    assert_eq!(selected.function.unwrap().params, vec![Type::TypeVar(1), Type::I64]);
}

#[test]
fn variables_without_a_callable_bound_are_left_alone() {
    let selected = member(true, vec![Type::TypeVar(1), Type::TypeVar(2)], Type::TypeVar(3));
    let (instance, request) = CallableInstance::start(selected, protocols());
    assert!(matches!(request, InstanceRequest::VariableBounds(ref vars) if *vars == vec![2, 3]));
    let other_trait = TraitBound { trait_id: def_id(7), type_args: vec![Type::I64, Type::Bool] };
    let (_, request) = instance.step(InstanceAnswer::Bounds(vec![vec![other_trait], vec![]]));
    let selected = finished(request);
    assert_eq!(selected.substituted_params, vec![Type::TypeVar(2)]);
}

#[test]
fn callable_bounded_variables_get_fresh_instances() {
    let selected = member(true, vec![Type::TypeVar(1), Type::TypeVar(2)], Type::TypeVar(3));
    let (instance, request) = CallableInstance::start(selected, protocols());
    assert!(matches!(request, InstanceRequest::VariableBounds(ref vars) if *vars == vec![2, 3]));

    let callable = TraitBound {
        trait_id: def_id(1),
        type_args: vec![Type::Tuple(vec![Type::TypeVar(4)]), Type::TypeVar(3)],
    };
    let (instance, request) = instance.step(InstanceAnswer::Bounds(vec![vec![callable], vec![]]));
    assert!(matches!(request, InstanceRequest::ResolveVariables(ref vars) if *vars == vec![2, 3, 4]));

    let resolved = vec![Type::TypeVar(2), Type::Generic(owner_param()), Type::TypeVar(2)];
    let (instance, request) = instance.step(InstanceAnswer::Types(resolved));
    match &request {
        InstanceRequest::FreshVariables { roots, span } => {
            assert_eq!(*roots, vec![2]);
            assert_eq!(*span, Span { start: 4, end: 9 });
        }
        other => panic!("expected fresh variables to be asked for, got {other:?}"),
    }

    let (instance, request) = instance.step(InstanceAnswer::Types(vec![Type::TypeVar(50)]));
    match &request {
        InstanceRequest::AddBounds { bounds, reason, .. } => {
            assert_eq!(reason, "inferred method callable argument");
            assert_eq!(bounds.len(), 1);
            assert_eq!(bounds[0].0, 50);
            assert_eq!(bounds[0].1.trait_id, def_id(1));
            assert_eq!(
                bounds[0].1.type_args,
                vec![Type::Tuple(vec![Type::TypeVar(50)]), Type::Bool]
            );
        }
        other => panic!("expected bounds to be recorded, got {other:?}"),
    }

    let (_, request) = instance.step(InstanceAnswer::Recorded);
    let selected = finished(request);
    let function = selected.function.unwrap();
    assert_eq!(function.params, vec![Type::TypeVar(1), Type::TypeVar(50)]);
    assert_eq!(function.ret_type, Type::Bool);
    assert_eq!(selected.substituted_params, vec![Type::TypeVar(50)]);
    assert_eq!(selected.return_type, Type::Bool);
}

#[test]
fn an_answer_of_the_wrong_length_leaves_the_member_alone() {
    let selected = member(true, vec![Type::TypeVar(1), Type::TypeVar(2)], Type::TypeVar(3));
    let (instance, _) = CallableInstance::start(selected, protocols());
    let (_, request) = instance.step(InstanceAnswer::Bounds(vec![]));
    let selected = finished(request);
    assert_eq!(selected.return_type, Type::TypeVar(3));
}
