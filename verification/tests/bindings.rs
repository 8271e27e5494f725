use rock_lib::bindings::{materialize_method_bindings, ImplMethods, MethodSignature, ResolveError};
use rock_lib::callable::CallableProtocol;
use rock_lib::hir::{
    GenericParamDecl, HirMethodCallTarget, HirTypeBinding, ParamBounds, TraitBound,
};
use rock_lib::hir_expr::Span;
use rock_lib::ids::{DefId, GenericParamId};
use rock_lib::types::{CallableKind, FunctionSafety, Kind, Type};

fn def_id(index: u32) -> DefId {
    DefId::new(0, index)
}

fn param(owner: u32, index: u32) -> GenericParamId {
    GenericParamId { owner: def_id(owner), index }
}

fn decl(owner: u32, index: u32) -> GenericParamDecl {
    GenericParamDecl { id: param(owner, index), kind: Kind::Type }
}

fn span() -> Span {
    Span { start: 3, end: 7 }
}

fn protocols() -> Vec<CallableProtocol> {
    vec![CallableProtocol { kind: CallableKind::Fn, trait_id: def_id(1), member_id: def_id(11) }]
}

fn target() -> HirMethodCallTarget {
    HirMethodCallTarget::impl_method(def_id(50), def_id(51), None)
}

fn impls(method: MethodSignature) -> Vec<ImplMethods> {
    vec![ImplMethods { impl_id: def_id(50), methods: vec![method] }]
}

fn generic_method(bounds: Vec<ParamBounds>, generic_params: Vec<GenericParamDecl>) -> MethodSignature {
    MethodSignature {
        id: def_id(51),
        name: "map".to_string(),
        is_unsafe: false,
        self_receiver: false,
        generic_params,
        params: vec![Type::Unit, Type::Generic(param(51, 0))],
        is_method: true,
        ret_type: Type::Generic(param(51, 1)),
        generic_bounds: bounds,
    }
}

#[test]
fn method_bindings_are_inferred_from_arguments_and_result() {
    let mut target = target();
    let mut errors: Vec<ResolveError> = Vec::new();
    materialize_method_bindings(
        &impls(generic_method(vec![], vec![decl(51, 0), decl(51, 1)])),
        Vec::new(),
        &vec![Type::I64],
        &Type::Bool,
        &protocols(),
        true,
        span(),
        &mut target,
        &mut errors,
    );
    assert!(errors.is_empty());
    assert_eq!(target.method_substitution.len(), 2);
    assert_eq!(target.method_substitution[0].param, param(51, 0));
    assert_eq!(target.method_substitution[0].ty, Type::I64);
    assert_eq!(target.method_substitution[1].param, param(51, 1));
    assert_eq!(target.method_substitution[1].ty, Type::Bool);
}

#[test]
fn method_bindings_report_what_cannot_be_inferred_when_strict() {
    let method = generic_method(vec![], vec![decl(51, 0), decl(51, 2)]);
    let mut target = target();
    let mut errors: Vec<ResolveError> = Vec::new();
    materialize_method_bindings(
        &impls(method),
        Vec::new(),
        &vec![Type::I64],
        &Type::Bool,
        &protocols(),
        true,
        span(),
        &mut target,
        &mut errors,
    );
    assert_eq!(target.method_substitution.len(), 1);
    assert_eq!(errors.len(), 1);
    assert_eq!(errors[0].message, "cannot infer a generalized method type argument");
    assert_eq!(errors[0].span, span());

    let mut lenient_target = self::target();
    let mut lenient_errors: Vec<ResolveError> = Vec::new();
    materialize_method_bindings(
        &impls(generic_method(vec![], vec![decl(51, 0), decl(51, 2)])),
        Vec::new(),
        &vec![Type::I64],
        &Type::Bool,
        &protocols(),
        false,
        span(),
        &mut lenient_target,
        &mut lenient_errors,
    );
    assert!(lenient_errors.is_empty());
    assert_eq!(lenient_target.method_substitution.len(), 1);
}

#[test]
fn method_bindings_leave_complete_targets_alone() {
    let mut target = target();
    target.method_substitution.push(HirTypeBinding { param: param(51, 0), ty: Type::U8 });
    let mut errors: Vec<ResolveError> = Vec::new();
    materialize_method_bindings(
        &impls(generic_method(vec![], vec![decl(51, 0)])),
        Vec::new(),
        &vec![Type::I64],
        &Type::Bool,
        &protocols(),
        true,
        span(),
        &mut target,
        &mut errors,
    );
    assert_eq!(target.method_substitution.len(), 1);
    assert_eq!(target.method_substitution[0].ty, Type::U8);
    assert!(errors.is_empty());

    let mut unknown = HirMethodCallTarget::impl_method(def_id(77), def_id(51), None);
    materialize_method_bindings(
        &impls(generic_method(vec![], vec![decl(51, 0)])),
        Vec::new(),
        &vec![Type::I64],
        &Type::Bool,
        &protocols(),
        true,
        span(),
        &mut unknown,
        &mut errors,
    );
    assert!(unknown.method_substitution.is_empty());
    assert!(errors.is_empty());
}

#[test]
fn method_bindings_follow_callable_bounds_of_function_values() {
    // f: F where F: Fn(A) -> R; called with a function I64 -> Bool.
    let f = param(51, 0);
    let a = param(51, 1);
    let r = param(51, 2);
    let method = MethodSignature {
        id: def_id(51),
        name: "map".to_string(),
        is_unsafe: false,
        self_receiver: false,
        generic_params: vec![decl(51, 0), decl(51, 1), decl(51, 2)],
        params: vec![Type::Unit, Type::Generic(f)],
        is_method: true,
        ret_type: Type::Unit,
        generic_bounds: vec![ParamBounds {
            param: f,
            bounds: vec![TraitBound {
                trait_id: def_id(1),
                type_args: vec![Type::Generic(a), Type::Generic(r)],
            }],
        }],
    };
    let callback = Type::function_with_metadata(
        vec![Type::I64],
        Type::Bool,
        FunctionSafety::Safe,
        CallableKind::Fn,
        Vec::new(),
    );
    let mut target = target();
    let mut errors: Vec<ResolveError> = Vec::new();
    materialize_method_bindings(
        &impls(method),
        Vec::new(),
        &vec![Type::Reference { mutable: false, inner: Box::new(callback.clone()) }],
        &Type::Unit,
        &protocols(),
        true,
        span(),
        &mut target,
        &mut errors,
    );
    assert!(errors.is_empty());
    assert_eq!(target.method_substitution.len(), 3);
    assert_eq!(
        target.method_substitution[0].ty,
        Type::Reference { mutable: false, inner: Box::new(callback) }
    );
    assert_eq!(target.method_substitution[1].ty, Type::I64);
    assert_eq!(target.method_substitution[2].ty, Type::Bool);
}

#[test]
fn method_bindings_end_ordered_by_parameter() {
    let mut target = target();
    target.method_substitution.push(HirTypeBinding { param: param(51, 1), ty: Type::Bool });
    let mut errors: Vec<ResolveError> = Vec::new();
    materialize_method_bindings(
        &impls(generic_method(vec![], vec![decl(51, 0), decl(51, 1)])),
        vec![(param(51, 1), Type::Bool)],
        &vec![Type::I64],
        &Type::Bool,
        &protocols(),
        true,
        span(),
        &mut target,
        &mut errors,
    );
    assert!(errors.is_empty());
    assert_eq!(target.method_substitution.len(), 2);
    assert_eq!(target.method_substitution[0].param, param(51, 0));
    assert_eq!(target.method_substitution[0].ty, Type::I64);
    assert_eq!(target.method_substitution[1].param, param(51, 1));
    assert_eq!(target.method_substitution[1].ty, Type::Bool);
}
