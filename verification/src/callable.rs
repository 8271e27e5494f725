use vstd::prelude::*;
use crate::hir::{
    HirImpl, HirImplReceiverPattern, HirMethodCallTarget, HirSelectedMethodTarget, SpecTraitBound,
    TraitBound,
};
use crate::matching::{spec_type_pattern_matches, type_pattern_matches};
use crate::project::same_text;
use crate::subst::Substitution;
use crate::bindings::MethodSignature;
use crate::hir_expr::{
    clone_hir, view_hirs, view_params, view_stmts, HirBlock, HirExpr, HirExprKind, HirLocalId,
    HirParam, HirStmt, HirVarRef, HirVarTarget, SpecHirExpr, SpecHirKind, SpecHirParam, Span,
};
use crate::ids::DefId;
use crate::types::{
    callable_rank, clone_type, clone_types, view_type, view_types, CallableKind, FunctionSafety,
    SpecType, Type,
};

verus! {

/// The signature of a native function value seen through references:
/// parameters, result, callable protocol and safety. A shared reference
/// admits only `Fn` values, a mutable one `Fn` and `FnMut` values.
pub open spec fn spec_native_signature(t: SpecType) -> Option<
    (Seq<SpecType>, SpecType, CallableKind, FunctionSafety),
>
    decreases t,
{
    match t {
        SpecType::Function { params, ret, callable_kind, safety, .. } => Some(
            (params, *ret, callable_kind, safety),
        ),
        SpecType::Reference { mutable, inner } => match spec_native_signature(*inner) {
            Some(signature) => {
                let allowed = if mutable {
                    CallableKind::FnMut
                } else {
                    CallableKind::Fn
                };
                if callable_rank(signature.2) <= callable_rank(allowed) {
                    Some(signature)
                } else {
                    None
                }
            },
            None => None,
        },
        _ => None,
    }
}

/// Finds the native signature of a function value, through references.
pub fn native_signature(ty: &Type) -> (r: Option<(&Vec<Type>, &Type, CallableKind, FunctionSafety)>)
    ensures
        match spec_native_signature(ty@) {
            Some(s) => r matches Some(x) && view_types(x.0@) == s.0 && x.1@ == s.1 && x.2 == s.2
                && x.3 == s.3,
            None => r is None,
        },
    decreases ty,
{
    match ty {
        Type::Function { params, ret, callable_kind, safety, .. } => Some(
            (params, &**ret, *callable_kind, *safety),
        ),
        Type::Reference { mutable, inner } => {
            let signature = native_signature(inner)?;
            let allowed = if *mutable {
                CallableKind::FnMut
            } else {
                CallableKind::Fn
            };
            if signature.2.at_most(&allowed) {
                Some(signature)
            } else {
                None
            }
        },
        _ => None,
    }
}

/// The single type that packs the arguments of a call: unit for none, the
/// argument's own type for one, a tuple for several.
pub open spec fn spec_callable_args_type(params: Seq<SpecType>) -> SpecType {
    if params.len() == 0 {
        SpecType::Unit
    } else if params.len() == 1 {
        params[0]
    } else {
        SpecType::Tuple(params)
    }
}

/// The type that packs the arguments of a call.
pub fn callable_args_type(params: &Vec<Type>) -> (r: Type)
    ensures
        r@ == spec_callable_args_type(view_types(params@)),
{
    if params.len() == 0 {
        Type::Unit
    } else if params.len() == 1 {
        clone_type(&params[0])
    } else {
        Type::Tuple(clone_types(params))
    }
}

/// Through a shared reference only an `Fn` value can be called, and through a
/// mutable reference never an `FnOnce` value.
pub proof fn lemma_reference_narrows_callable_kind(mutable: bool, inner: SpecType)
    ensures
        spec_native_signature(SpecType::Reference { mutable, inner: Box::new(inner) }) matches Some(
            s,
        ) ==> if mutable {
            s.2 != CallableKind::FnOnce
        } else {
            s.2 == CallableKind::Fn
        },
{
}

// ---------------------------------------------------------------------------
// Calls of function values through the callable protocols.
// ---------------------------------------------------------------------------

/// One of the language's callable protocols: the trait a value implements to
/// be called, the member that is called, and the protocol's kind.
#[derive(Clone, Copy, Debug, PartialEq, Eq, Structural)]
pub struct CallableProtocol {
    pub kind: CallableKind,
    pub trait_id: DefId,
    pub member_id: DefId,
}

/// The expression `()` of type unit.
pub open spec fn spec_unit_expr(span: Span) -> SpecHirExpr {
    SpecHirExpr { ty: SpecType::Unit, kind: SpecHirKind::Unit, span }
}

/// The single expression that passes the arguments of a call: unit for none,
/// the argument itself for one, a tuple for several.
pub open spec fn spec_pack_arguments(args: Seq<SpecHirExpr>, span: Span) -> SpecHirExpr {
    if args.len() == 0 {
        spec_unit_expr(span)
    } else if args.len() == 1 {
        args[0]
    } else {
        SpecHirExpr {
            ty: SpecType::Tuple(args.map_values(|a: SpecHirExpr| a.ty)),
            kind: SpecHirKind::TupleLiteral(args),
            span,
        }
    }
}

/// Calls pack their arguments the way callable bounds describe them: the
/// packed arguments of a call have the argument-pack type of the arguments'
/// types (unit for none, the argument's own type for one, a tuple for several).
pub proof fn lemma_packed_arguments_have_pack_type(args: Seq<SpecHirExpr>, span: Span)
    ensures
        spec_pack_arguments(args, span).ty == spec_callable_args_type(
            args.map_values(|a: SpecHirExpr| a.ty),
        ),
{
}

/// Packs the arguments of a call into one expression.
pub fn pack_call_arguments(args: Vec<HirExpr>, span: Span) -> (r: HirExpr)
    ensures
        r@ == spec_pack_arguments(view_hirs(args@), span),
{
    let ghost v = view_hirs(args@);
    if args.len() == 0 {
        return HirExpr { ty: Type::Unit, kind: HirExprKind::Unit, span };
    }
    if args.len() == 1 {
        let mut args = args;
        let ghost before = args@;
        let only = args.pop().unwrap();
        assert(v[0] == crate::hir_expr::view_hir(before[0]));
        return only;
    }
    let mut types: Vec<Type> = Vec::new();
    let mut i: usize = 0;
    while i < args.len()
        invariant
            i <= args@.len(),
            v == view_hirs(args@),
            types@.len() == i,
            forall|j: int| 0 <= j < i ==> view_type(#[trigger] types@[j]) == v[j].ty,
        decreases args.len() - i,
    {
        types.push(clone_type(&args[i].ty));
        i = i + 1;
    }
    assert(view_types(types@) =~= v.map_values(|a: SpecHirExpr| a.ty));
    HirExpr { ty: Type::Tuple(types), kind: HirExprKind::TupleLiteral(args), span }
}

/// The kind of the first protocol whose trait and member a call target names.
pub open spec fn protocol_kind(protocols: Seq<CallableProtocol>, target: HirMethodCallTarget) -> Option<
    CallableKind,
>
    decreases protocols.len(),
{
    if protocols.len() == 0 {
        None
    } else if target.spec_trait_id() == Some(protocols[0].trait_id) && target.spec_method_id()
        == Some(protocols[0].member_id) {
        Some(protocols[0].kind)
    } else {
        protocol_kind(protocols.drop_first(), target)
    }
}

/// A type seen through all its references.
pub open spec fn strip_references(t: SpecType) -> SpecType
    decreases t,
{
    match t {
        SpecType::Reference { inner, .. } => strip_references(*inner),
        _ => t,
    }
}

/// A use of a parameter of the adapter.
pub open spec fn spec_param_use(p: SpecHirParam, span: Span) -> SpecHirExpr {
    SpecHirExpr {
        ty: p.ty,
        kind: SpecHirKind::ResolvedVar { name: p.name, target: HirVarTarget::Local(p.local_id) },
        span,
    }
}

/// The adapter that calls a native function value through a callable
/// protocol: a lambda of the receiver (borrowed for `Fn` and `FnMut`, moved
/// for `FnOnce`) and the packed arguments, which calls the receiver with the
/// arguments unpacked, applied at once to the receiver and the pack. `None`
/// where the target is no protocol member, the receiver no function value,
/// or the arguments not one pack.
pub open spec fn spec_native_callable_adapter(
    receiver: SpecHirExpr,
    args: Seq<SpecHirExpr>,
    target: HirMethodCallTarget,
    result: SpecType,
    span: Span,
    protocols: Seq<CallableProtocol>,
) -> Option<SpecHirExpr> {
    match protocol_kind(protocols, target) {
        None => None,
        Some(kind) => match strip_references(receiver.ty) {
            SpecType::Function { params: native_params, .. } => if args.len() != 1 {
                None
            } else {
                let packed = args[0];
                let recv = if kind != CallableKind::FnOnce {
                    let mutable = kind == CallableKind::FnMut;
                    SpecHirExpr {
                        ty: SpecType::Reference { mutable, inner: Box::new(receiver.ty) },
                        kind: SpecHirKind::Ref(mutable, Box::new(receiver)),
                        span,
                    }
                } else {
                    receiver
                };
                let params = seq![
                    SpecHirParam {
                        name: "__call_receiver"@,
                        local_id: HirLocalId { index: 0 },
                        ty: recv.ty,
                        mutable: true,
                        is_ref: false,
                    },
                    SpecHirParam {
                        name: "__call_args"@,
                        local_id: HirLocalId { index: 1 },
                        ty: packed.ty,
                        mutable: false,
                        is_ref: false,
                    },
                ];
                let callee = spec_param_use(params[0], span);
                let arguments = if native_params.len() == 0 {
                    Seq::empty()
                } else if native_params.len() == 1 {
                    seq![spec_param_use(params[1], span)]
                } else {
                    Seq::new(
                        native_params.len(),
                        |i: int|
                            SpecHirExpr {
                                ty: native_params[i],
                                kind: SpecHirKind::TupleIndex(
                                    Box::new(spec_param_use(params[1], span)),
                                    i as u32,
                                ),
                                span,
                            },
                    )
                };
                let call = SpecHirExpr {
                    ty: result,
                    kind: SpecHirKind::Call(Box::new(callee), arguments),
                    span,
                };
                let adapter = SpecHirExpr {
                    ty: SpecType::Function {
                        params: seq![recv.ty, packed.ty],
                        ret: Box::new(result),
                        safety: FunctionSafety::Safe,
                        callable_kind: CallableKind::Fn,
                        captures: Seq::empty(),
                    },
                    kind: SpecHirKind::Lambda { params, body: seq![call], body_ty: result },
                    span,
                };
                Some(
                    SpecHirExpr {
                        ty: result,
                        kind: SpecHirKind::Call(Box::new(adapter), seq![recv, packed]),
                        span,
                    },
                )
            },
            _ => None,
        },
    }
}

fn find_protocol_kind(protocols: &Vec<CallableProtocol>, target: &HirMethodCallTarget) -> (r: Option<
    CallableKind,
>)
    ensures
        r == protocol_kind(protocols@, *target),
{
    let mut i: usize = 0;
    assert(protocols@.skip(0) =~= protocols@);
    while i < protocols.len()
        invariant
            i <= protocols@.len(),
            protocol_kind(protocols@, *target) == protocol_kind(protocols@.skip(i as int), *target),
        decreases protocols.len() - i,
    {
        let p = protocols[i];
        assert(protocols@.skip(i as int)[0] == p);
        assert(protocols@.skip(i as int).drop_first() =~= protocols@.skip(i + 1));
        if target.trait_id() == Some(p.trait_id) && target.method_id() == Some(p.member_id) {
            return Some(p.kind);
        }
        i = i + 1;
    }
    assert(protocols@.skip(i as int).len() == 0);
    None
}

pub(crate) fn strip_references_exec(t: &Type) -> (r: &Type)
    ensures
        r@ == strip_references(t@),
    decreases t,
{
    match t {
        Type::Reference { inner, .. } => strip_references_exec(inner),
        _ => t,
    }
}

fn param_use(p: &HirParam, span: Span) -> (r: HirExpr)
    ensures
        r@ == spec_param_use(crate::hir_expr::view_param(*p), span),
{
    HirExpr {
        ty: clone_type(&p.ty),
        kind: HirExprKind::ResolvedVar(
            HirVarRef { name: p.name.clone(), target: HirVarTarget::Local(p.local_id) },
        ),
        span,
    }
}

/// Builds the adapter through which a native function value is called by a
/// callable protocol: it evaluates the receiver and the argument pack once
/// and passes them on, preserving ownership.
pub fn native_callable_adapter(
    receiver: &HirExpr,
    args: &Vec<HirExpr>,
    target: &HirMethodCallTarget,
    result: &Type,
    span: Span,
    protocols: &Vec<CallableProtocol>,
) -> (r: Option<HirExpr>)
    ensures
        match spec_native_callable_adapter(
            receiver@,
            view_hirs(args@),
            *target,
            result@,
            span,
            protocols@,
        ) {
            Some(e) => r matches Some(x) && x@ == e,
            None => r is None,
        },
{
    let kind = find_protocol_kind(protocols, target)?;
    let native_ty = strip_references_exec(&receiver.ty);
    let native_params = match native_ty {
        Type::Function { params, .. } => params,
        _ => {
            return None;
        },
    };
    if args.len() != 1 {
        return None;
    }
    let packed = &args[0];
    let ghost packed_view = view_hirs(args@)[0];
    assert(packed@ == packed_view);
    let recv = if kind != CallableKind::FnOnce {
        let mutable = kind == CallableKind::FnMut;
        HirExpr {
            ty: Type::Reference { mutable, inner: Box::new(clone_type(&receiver.ty)) },
            kind: HirExprKind::Ref(mutable, Box::new(clone_hir(receiver))),
            span,
        }
    } else {
        clone_hir(receiver)
    };
    let ghost spec_recv = if kind != CallableKind::FnOnce {
        let mutable = kind == CallableKind::FnMut;
        SpecHirExpr {
            ty: SpecType::Reference { mutable, inner: Box::new(receiver@.ty) },
            kind: SpecHirKind::Ref(mutable, Box::new(receiver@)),
            span,
        }
    } else {
        receiver@
    };
    assert(recv@ == spec_recv);
    let receiver_param = HirParam {
        name: "__call_receiver".to_owned(),
        local_id: HirLocalId { index: 0 },
        ty: clone_type(&recv.ty),
        mutable: true,
        is_ref: false,
    };
    let args_param = HirParam {
        name: "__call_args".to_owned(),
        local_id: HirLocalId { index: 1 },
        ty: clone_type(&packed.ty),
        mutable: false,
        is_ref: false,
    };
    let callee = param_use(&receiver_param, span);
    let ghost args_param_view = crate::hir_expr::view_param(args_param);
    let ghost spec_params = seq![
        SpecHirParam {
            name: "__call_receiver"@,
            local_id: HirLocalId { index: 0 },
            ty: spec_recv.ty,
            mutable: true,
            is_ref: false,
        },
        SpecHirParam {
            name: "__call_args"@,
            local_id: HirLocalId { index: 1 },
            ty: packed_view.ty,
            mutable: false,
            is_ref: false,
        },
    ];
    assert(crate::hir_expr::view_param(receiver_param) == spec_params[0]);
    assert(args_param_view == spec_params[1]);
    assert(callee@ == spec_param_use(spec_params[0], span));
    let ghost native_view = view_types(native_params@);
    assert(native_ty@ == strip_references(receiver@.ty));
    let ghost spec_arguments = if native_view.len() == 0 {
        Seq::empty()
    } else if native_view.len() == 1 {
        seq![spec_param_use(spec_params[1], span)]
    } else {
        Seq::new(
            native_view.len(),
            |i: int|
                SpecHirExpr {
                    ty: native_view[i],
                    kind: SpecHirKind::TupleIndex(
                        Box::new(spec_param_use(spec_params[1], span)),
                        i as u32,
                    ),
                    span,
                },
        )
    };
    let mut arguments: Vec<HirExpr> = Vec::new();
    if native_params.len() == 1 {
        arguments.push(param_use(&args_param, span));
        assert(view_hirs(arguments@) =~= seq![spec_param_use(args_param_view, span)]);
    } else if native_params.len() > 1 {
        let mut i: usize = 0;
        while i < native_params.len()
            invariant
                i <= native_params@.len(),
                native_params@.len() > 1,
                arguments@.len() == i,
                args_param_view == crate::hir_expr::view_param(args_param),
                forall|j: int|
                    0 <= j < i ==> view_hirs(arguments@)[j] == (SpecHirExpr {
                        ty: view_types(native_params@)[j],
                        kind: SpecHirKind::TupleIndex(
                            Box::new(spec_param_use(args_param_view, span)),
                            j as u32,
                        ),
                        span,
                    }),
            decreases native_params.len() - i,
        {
            #[verifier::truncate]
            let index = i as u32;
            let element = HirExpr {
                ty: clone_type(&native_params[i]),
                kind: HirExprKind::TupleIndex(Box::new(param_use(&args_param, span)), index),
                span,
            };
            let ghost before = arguments@;
            arguments.push(element);
            proof {
                assert forall|j: int| 0 <= j < i + 1 implies view_hirs(arguments@)[j] == (SpecHirExpr {
                    ty: view_types(native_params@)[j],
                    kind: SpecHirKind::TupleIndex(
                        Box::new(spec_param_use(args_param_view, span)),
                        j as u32,
                    ),
                    span,
                }) by {
                    if j < i {
                        assert(arguments@[j] == before[j]);
                        assert(view_hirs(before)[j] == view_hirs(arguments@)[j]);
                    }
                }
            }
            i = i + 1;
        }
        assert(view_hirs(arguments@) =~= Seq::new(
            native_params@.len(),
            |j: int|
                SpecHirExpr {
                    ty: view_types(native_params@)[j],
                    kind: SpecHirKind::TupleIndex(
                        Box::new(spec_param_use(args_param_view, span)),
                        j as u32,
                    ),
                    span,
                },
        ));
    } else {
        assert(view_hirs(arguments@) =~= Seq::<SpecHirExpr>::empty());
    }
    assert(view_hirs(arguments@) == spec_arguments);
    let call = HirExpr {
        ty: clone_type(result),
        kind: HirExprKind::Call(Box::new(callee), arguments),
        span,
    };
    let ghost spec_call = SpecHirExpr {
        ty: result@,
        kind: SpecHirKind::Call(Box::new(spec_param_use(spec_params[0], span)), spec_arguments),
        span,
    };
    assert(call@ == spec_call);
    let mut adapter_param_types: Vec<Type> = Vec::new();
    adapter_param_types.push(clone_type(&receiver_param.ty));
    adapter_param_types.push(clone_type(&args_param.ty));
    let ghost param_types_view = seq![view_type(receiver_param.ty), view_type(args_param.ty)];
    assert(view_types(adapter_param_types@) =~= param_types_view);
    let adapter_ty = Type::function(adapter_param_types, clone_type(result));
    let ghost params_view = seq![
        crate::hir_expr::view_param(receiver_param),
        crate::hir_expr::view_param(args_param),
    ];
    let mut params: Vec<HirParam> = Vec::new();
    params.push(receiver_param);
    params.push(args_param);
    assert(view_params(params@) =~= params_view);
    let ghost call_view = call@;
    let mut stmts: Vec<HirStmt> = Vec::new();
    stmts.push(HirStmt::Expr(call));
    assert(view_stmts(stmts@) =~= seq![call_view]);
    let adapter = HirExpr {
        ty: adapter_ty,
        kind: HirExprKind::Lambda { params, body: HirBlock { stmts, ty: clone_type(result) } },
        span,
    };
    let ghost spec_adapter = SpecHirExpr {
        ty: SpecType::Function {
            params: seq![spec_recv.ty, packed_view.ty],
            ret: Box::new(result@),
            safety: FunctionSafety::Safe,
            callable_kind: CallableKind::Fn,
            captures: Seq::empty(),
        },
        kind: SpecHirKind::Lambda { params: spec_params, body: seq![spec_call], body_ty: result@ },
        span,
    };
    assert(adapter@ == spec_adapter);
    let ghost recv_view = recv@;
    let mut outer_args: Vec<HirExpr> = Vec::new();
    outer_args.push(recv);
    outer_args.push(clone_hir(packed));
    assert(view_hirs(outer_args@) =~= seq![recv_view, packed_view]);
    Some(
        HirExpr {
            ty: clone_type(result),
            kind: HirExprKind::Call(Box::new(adapter), outer_args),
            span,
        },
    )
}

// ---------------------------------------------------------------------------
// Selecting the protocol member that calls a value.
// ---------------------------------------------------------------------------

/// A receiver expression offered for a call, and whether it may be borrowed mutably.
#[derive(Debug)]
pub struct ReceiverCandidate {
    pub expr: HirExpr,
    pub can_autoref_mut: bool,
}

/// A method that selection settled on.
#[derive(Debug)]
pub struct SelectedMethod {
    pub target: HirMethodCallTarget,
    /// The impl that defines the method, when it comes from one.
    pub impl_def: Option<HirImpl>,
    /// Bounds of that impl still to be proved for this call.
    pub pending_impl_bounds: Vec<TraitBound>,
    /// The signature of the selected method, where it has one.
    pub function: Option<MethodSignature>,
    /// The owner's generic parameters as selection bound them.
    pub owner_substitution: Substitution,
    /// The parameter types of the call (the receiver excluded) under that substitution.
    pub substituted_params: Vec<Type>,
    /// The result type under that substitution.
    pub return_type: Type,
    /// The receiver the method is called on.
    pub receiver: HirExpr,
}

/// Why selection failed.
#[derive(Debug)]
pub enum SelectionDiagnostic {
    TraitMemberIdMissing { trait_id: DefId, member_id: DefId },
    AmbiguousCandidates { operation: String, receiver: Type, candidates: Vec<DefId> },
    ReceiverMismatch { operation: String, receiver: Type },
    /// No method of that name applies.
    MethodNotFound { name: String },
}

/// The bound a native function value provides for a protocol: a safe value
/// whose own protocol is at most the requested one implements it with its
/// packed parameters and its result as trait arguments.
pub open spec fn native_bound(ty: SpecType, protocol: CallableProtocol) -> Option<SpecTraitBound> {
    match spec_native_signature(ty) {
        Some(sig) => if callable_rank(sig.2) <= callable_rank(protocol.kind) && sig.3
            == FunctionSafety::Safe {
            Some(
                SpecTraitBound {
                    trait_id: protocol.trait_id,
                    type_args: seq![spec_callable_args_type(sig.0), sig.1],
                },
            )
        } else {
            None
        },
        None => None,
    }
}

/// `Fn` implies `FnMut` and `FnOnce`, and `FnMut` implies `FnOnce`: a
/// function value that implements a protocol implements every protocol that
/// asks less of its receiver, with the same argument pack and result.
pub proof fn lemma_protocols_imply_weaker(ty: SpecType, stronger: CallableProtocol, weaker: CallableProtocol)
    requires
        callable_rank(stronger.kind) <= callable_rank(weaker.kind),
        native_bound(ty, stronger) is Some,
    ensures
        native_bound(ty, weaker) matches Some(b) && b.trait_id == weaker.trait_id && b.type_args
            == native_bound(ty, stronger)->0.type_args,
{
}


/// The bounds in `bounds` that name the trait `trait_id`, in order.
pub open spec fn bounds_of_trait(bounds: Seq<SpecTraitBound>, trait_id: DefId) -> Seq<
    SpecTraitBound,
>
    decreases bounds.len(),
{
    if bounds.len() == 0 {
        Seq::empty()
    } else {
        let rest = bounds_of_trait(bounds.drop_last(), trait_id);
        if bounds.last().trait_id == trait_id {
            rest.push(bounds.last())
        } else {
            rest
        }
    }
}

/// The bounds through which a candidate of type `ty` may answer a protocol:
/// those it has (with their supertraits) plus the one a native function
/// value provides, kept only where they name the protocol's trait.
pub open spec fn spec_available_bounds(
    known: Seq<SpecTraitBound>,
    ty: SpecType,
    protocol: CallableProtocol,
) -> Seq<SpecTraitBound> {
    let all = match native_bound(ty, protocol) {
        Some(b) => known.push(b),
        None => known,
    };
    bounds_of_trait(all, protocol.trait_id)
}

pub open spec fn view_bounds(bounds: Seq<TraitBound>) -> Seq<SpecTraitBound> {
    bounds.map_values(|b: TraitBound| b@)
}

fn clone_bound(b: &TraitBound) -> (r: TraitBound)
    ensures
        r@ == b@,
{
    TraitBound { trait_id: b.trait_id, type_args: clone_types(&b.type_args) }
}

/// A function value that is not safe brings no bound of its own for any
/// protocol and is not looked up among concrete impls: only the bounds known
/// for its type can answer a protocol through it. So where none of those
/// names the protocol's trait, bound selection is handed no bound, and
/// unless it answers from nothing the candidate answers nothing.
pub proof fn lemma_unsafe_function_value(
    ty: SpecType,
    protocol: CallableProtocol,
    known: Seq<SpecTraitBound>,
)
    requires
        ty matches SpecType::Function { safety, .. } && safety == FunctionSafety::Unsafe,
    ensures
        native_bound(ty, protocol) is None,
        spec_available_bounds(known, ty, protocol) == bounds_of_trait(known, protocol.trait_id),
        skips_concrete_selection(ty),
{
}

/// The bounds through which a candidate of type `ty` may answer `protocol`,
/// from the bounds `known` for it.
pub fn available_bounds(known: Vec<TraitBound>, ty: &Type, protocol: CallableProtocol) -> (r: Vec<
    TraitBound,
>)
    ensures
        view_bounds(r@) == spec_available_bounds(view_bounds(known@), ty@, protocol),
{
    let ghost known_view = view_bounds(known@);
    let mut all = known;
    if let Some((params, ret, kind, safety)) = native_signature(ty) {
        if kind.at_most(&protocol.kind) && safety == FunctionSafety::Safe {
            let mut type_args: Vec<Type> = Vec::new();
            type_args.push(callable_args_type(params));
            type_args.push(clone_type(ret));
            let bound = TraitBound { trait_id: protocol.trait_id, type_args };
            assert(view_types(type_args@) =~= seq![
                spec_callable_args_type(view_types(params@)),
                ret@,
            ]);
            let ghost bound_view = bound@;
            all.push(bound);
            assert(view_bounds(all@) =~= known_view.push(bound_view));
        }
    }
    let ghost all_view = view_bounds(all@);
    assert(all_view == match native_bound(ty@, protocol) {
        Some(b) => known_view.push(b),
        None => known_view,
    });
    let mut kept: Vec<TraitBound> = Vec::new();
    let mut i: usize = 0;
    while i < all.len()
        invariant
            i <= all@.len(),
            all_view == view_bounds(all@),
            view_bounds(kept@) == bounds_of_trait(all_view.take(i as int), protocol.trait_id),
        decreases all.len() - i,
    {
        let ghost prefix = all_view.take(i + 1);
        assert(prefix.drop_last() =~= all_view.take(i as int));
        assert(prefix.last() == all@[i as int]@);
        if all[i].trait_id == protocol.trait_id {
            let ghost before = view_bounds(kept@);
            kept.push(clone_bound(&all[i]));
            assert(view_bounds(kept@) =~= before.push(all@[i as int]@));
        }
        i = i + 1;
    }
    assert(all_view.take(all_view.len() as int) =~= all_view);
    kept
}

/// Candidates of these types are answered through their bounds alone: no
/// concrete impl is looked up for an inference variable, a generic
/// parameter, a function value, or a reference to the first two.
pub open spec fn skips_concrete_selection(ty: SpecType) -> bool {
    ||| ty is TypeVar
    ||| ty is Generic
    ||| ty is Function
    ||| (ty matches SpecType::Reference { inner, .. } && (*inner is TypeVar || *inner is Generic))
}

fn skips_concrete_selection_exec(ty: &Type) -> (r: bool)
    ensures
        r == skips_concrete_selection(ty@),
{
    match ty {
        Type::TypeVar(v) => {
            assert(ty@ == SpecType::TypeVar(*v));
            true
        },
        Type::Generic(g) => {
            assert(ty@ == SpecType::Generic(*g));
            true
        },
        Type::Function { .. } => {
            assert(ty@ is Function);
            true
        },
        Type::Reference { mutable, inner } => {
            assert(ty@ == SpecType::Reference { mutable: *mutable, inner: Box::new(inner@) });
            match &**inner {
                Type::TypeVar(v) => {
                    assert(inner@ == SpecType::TypeVar(*v));
                    true
                },
                Type::Generic(g) => {
                    assert(inner@ == SpecType::Generic(*g));
                    true
                },
                _ => false,
            }
        },
        _ => false,
    }
}

/// Whether a concrete method found for a candidate of type `ty` answers
/// `protocol`: through a reference only without pending impl bounds, with an
/// impl whose exact receiver pattern matches `ty`, and as the protocol's own
/// trait member.
pub open spec fn concrete_candidate_allowed(
    ty: SpecType,
    selected: SelectedMethod,
    protocol: CallableProtocol,
) -> bool {
    &&& (!(ty is Reference) || selected.pending_impl_bounds@.len() == 0)
    &&& match selected.impl_def {
        Some(imp) => match imp.receiver_pattern {
            HirImplReceiverPattern::Exact(pattern) => spec_type_pattern_matches(
                pattern@,
                ty,
                Map::empty(),
            ) is Some,
            _ => true,
        },
        None => true,
    }
    &&& selected.target.spec_trait_id() == Some(protocol.trait_id)
    &&& match selected.target.target {
        HirSelectedMethodTarget::ImplMethod { selected_trait: Some(member), .. } => member.member_id
            == protocol.member_id,
        _ => false,
    }
}

/// Whether a concrete method answers `protocol` for a candidate of type `ty`.
pub fn concrete_candidate_allowed_exec(
    ty: &Type,
    selected: &SelectedMethod,
    protocol: CallableProtocol,
) -> (r: bool)
    ensures
        r == concrete_candidate_allowed(ty@, *selected, protocol),
{
    let through_reference = match ty {
        Type::Reference { .. } => true,
        _ => false,
    };
    if through_reference && selected.pending_impl_bounds.len() != 0 {
        return false;
    }
    if let Some(imp) = &selected.impl_def {
        if let HirImplReceiverPattern::Exact(pattern) = &imp.receiver_pattern {
            let mut fresh = Substitution::new();
            if !type_pattern_matches(pattern, ty, &mut fresh) {
                return false;
            }
        }
    }
    if selected.target.trait_id() != Some(protocol.trait_id) {
        return false;
    }
    match &selected.target.target {
        HirSelectedMethodTarget::ImplMethod { selected_trait: Some(member), .. } => member.member_id
            == protocol.member_id,
        _ => false,
    }
}

/// What the search answers once `selected` was found for `candidate` under
/// `protocol` (`None`: go on searching): the selection, or, for a `FnMut`
/// protocol and a candidate that cannot be borrowed mutably, a receiver
/// mismatch; `FnOnce` is not tried in its place.
pub open spec fn selection_answer(
    protocol: CallableProtocol,
    candidate: ReceiverCandidate,
    selected: SelectedMethod,
    answer: Option<Result<Option<SelectedMethod>, SelectionDiagnostic>>,
) -> bool {
    if protocol.kind == CallableKind::FnMut && !candidate.can_autoref_mut {
        answer matches Some(Err(SelectionDiagnostic::ReceiverMismatch { operation, receiver }))
            && operation@ == "mutable function call (requires a mutable receiver)"@ && receiver@
            == candidate.expr.ty@
    } else {
        answer == Some(Ok::<Option<SelectedMethod>, SelectionDiagnostic>(Some(selected)))
    }
}

/// Whether a requested member name lets a protocol member named `name` through.
pub open spec fn name_consulted(member_name: Option<&str>, name: Seq<char>) -> bool {
    match member_name {
        Some(requested) => requested@ == name,
        None => true,
    }
}

/// The queries of method selection that callable selection relies on: the
/// name of a trait member, the bounds known for a type together with their
/// supertraits, selection among bounds, and selection among concrete impls.
pub struct SelectionService<M, T, S, C> {
    pub member_name_by_id: M,
    pub trait_bounds_with_supertraits: T,
    pub select_bound_method: S,
    pub select_concrete_method_candidates: C,
}

impl<M, T, S, C> SelectionService<M, T, S, C> where
    M: Fn(DefId, DefId) -> Option<String>,
    T: Fn(&Type, &Vec<TraitBound>) -> Vec<TraitBound>,
    S: Fn(&ReceiverCandidate, &Vec<TraitBound>, &str, &Type) -> Result<
        SelectedMethod,
        SelectionDiagnostic,
    >,
    C: Fn(&ReceiverCandidate, &str) -> Vec<SelectedMethod>,
 {
    /// Every query accepts every argument.
    pub open spec fn answers_all(&self) -> bool {
        &&& forall|t: DefId, m: DefId| self.member_name_by_id.requires((t, m))
        &&& forall|ty: &Type, b: &Vec<TraitBound>| self.trait_bounds_with_supertraits.requires((ty, b))
        &&& forall|c: &ReceiverCandidate, b: &Vec<TraitBound>, n: &str, ty: &Type|
            self.select_bound_method.requires((c, b, n, ty))
        &&& forall|c: &ReceiverCandidate, n: &str| self.select_concrete_method_candidates.requires((c, n))
    }

    /// Whether `available` is what bound selection is handed for a candidate
    /// of type `ty` under `protocol`: the bounds that `bounds` gives for the
    /// type, with their supertraits, plus the native bound of a function
    /// value, kept where they name the protocol's trait.
    pub open spec fn hands_bounds<B>(
        &self,
        bounds: B,
        ty: &Type,
        protocol: CallableProtocol,
        available: Seq<SpecTraitBound>,
    ) -> bool where B: Fn(&Type) -> Vec<TraitBound> {
        exists|own: Vec<TraitBound>, known: Vec<TraitBound>|
            #![trigger bounds.ensures((ty,), own), self.trait_bounds_with_supertraits.ensures((ty, &own), known)]
            bounds.ensures((ty,), own) && self.trait_bounds_with_supertraits.ensures((ty, &own), known)
                && available == spec_available_bounds(view_bounds(known@), ty@, protocol)
    }

    /// What the search among concrete impls answers for `candidate` (probed
    /// as `probe`) under `protocol`, when bound selection found nothing: no
    /// search for the types that `skips_concrete_selection` names; else the
    /// one allowed method, or an ambiguity among several, or nothing.
    pub open spec fn concrete_gives(
        &self,
        probe: ReceiverCandidate,
        name: &str,
        candidate: ReceiverCandidate,
        protocol: CallableProtocol,
        answer: Option<Result<Option<SelectedMethod>, SelectionDiagnostic>>,
    ) -> bool {
        let ty = candidate.expr.ty@;
        if skips_concrete_selection(ty) {
            answer is None
        } else {
            exists|found: Vec<SelectedMethod>|
                #![trigger self.select_concrete_method_candidates.ensures((&probe, name), found)]
                self.select_concrete_method_candidates.ensures((&probe, name), found) && {
                    let kept = allowed_among(found@, ty, protocol);
                    if kept.len() > 1 {
                        answer matches Some(
                            Err(SelectionDiagnostic::AmbiguousCandidates { operation, receiver, candidates }),
                        ) && operation@ == "function call"@ && receiver@ == ty && candidates@
                            == impl_ids_of(kept)
                    } else if kept.len() == 1 {
                        selection_answer(protocol, candidate, kept[0], answer)
                    } else {
                        answer is None
                    }
                }
        }
    }

    /// What trying `protocol`, whose member is named `name`, on `candidate`
    /// answers (`None`: go on searching). Bound selection is handed the
    /// candidate (mutable borrowing allowed), the available bounds, the
    /// member's name and the candidate's type; an ambiguity it reports is
    /// answered as it is, another failure falls back to concrete impls.
    pub open spec fn pair_gives<B>(
        &self,
        bounds: B,
        candidate: ReceiverCandidate,
        protocol: CallableProtocol,
        name: Seq<char>,
        answer: Option<Result<Option<SelectedMethod>, SelectionDiagnostic>>,
    ) -> bool where B: Fn(&Type) -> Vec<TraitBound> {
        exists|
            probe: ReceiverCandidate,
            available: Vec<TraitBound>,
            name_str: &str,
            bound_result: Result<SelectedMethod, SelectionDiagnostic>,
        |
            #![trigger self.select_bound_method.ensures(
                (&probe, &available, name_str, &candidate.expr.ty),
                bound_result,
            )]
            {
                &&& probe.expr@ == candidate.expr@
                &&& probe.can_autoref_mut
                &&& name_str@ == name
                &&& self.hands_bounds(bounds, &candidate.expr.ty, protocol, view_bounds(available@))
                &&& self.select_bound_method.ensures(
                    (&probe, &available, name_str, &candidate.expr.ty),
                    bound_result,
                )
                &&& match bound_result {
                    Ok(selected) => selection_answer(protocol, candidate, selected, answer),
                    Err(d) => if d is AmbiguousCandidates {
                        answer == Some(Err::<Option<SelectedMethod>, SelectionDiagnostic>(d))
                    } else {
                        self.concrete_gives(probe, name_str, candidate, protocol, answer)
                    },
                }
            }
    }

    /// Whether the search passes `protocol` without an answer: its member is
    /// named, and where `member_name` lets that name through, no candidate
    /// answers it.
    pub open spec fn protocol_passes<B>(
        &self,
        bounds: B,
        candidates: Seq<ReceiverCandidate>,
        protocol: CallableProtocol,
        member_name: Option<&str>,
    ) -> bool where B: Fn(&Type) -> Vec<TraitBound> {
        exists|name: Option<String>|
            #![trigger self.member_name_by_id.ensures((protocol.trait_id, protocol.member_id), name)]
            self.member_name_by_id.ensures((protocol.trait_id, protocol.member_id), name) && match name {
                Some(s) => name_consulted(member_name, s@) ==> forall|j: int|
                    0 <= j < candidates.len() ==> self.pair_gives(
                        bounds,
                        #[trigger] candidates[j],
                        protocol,
                        s@,
                        None,
                    ),
                None => false,
            }
    }

    /// Whether `protocol` is named, let through by `member_name`, passed over
    /// by the candidates before `j`, and answered `answer` by candidate `j`.
    pub open spec fn protocol_answers<B>(
        &self,
        bounds: B,
        candidates: Seq<ReceiverCandidate>,
        protocol: CallableProtocol,
        member_name: Option<&str>,
        j: int,
        answer: Result<Option<SelectedMethod>, SelectionDiagnostic>,
    ) -> bool where B: Fn(&Type) -> Vec<TraitBound> {
        exists|name: Option<String>|
            #![trigger self.member_name_by_id.ensures((protocol.trait_id, protocol.member_id), name)]
            self.member_name_by_id.ensures((protocol.trait_id, protocol.member_id), name) && match name {
                Some(s) => name_consulted(member_name, s@) && 0 <= j < candidates.len() && (forall|k: int|
                    0 <= k < j ==> self.pair_gives(bounds, #[trigger] candidates[k], protocol, s@, None))
                    && self.pair_gives(bounds, candidates[j], protocol, s@, Some(answer)),
                None => false,
            }
    }

    /// Whether the search reaches the protocol at `i` of `items`: every
    /// protocol before it was passed.
    pub open spec fn reaches<B>(
        &self,
        bounds: B,
        candidates: Seq<ReceiverCandidate>,
        items: Seq<CallableProtocol>,
        member_name: Option<&str>,
        i: int,
    ) -> bool where B: Fn(&Type) -> Vec<TraitBound> {
        forall|k: int|
            0 <= k < i ==> self.protocol_passes(bounds, candidates, #[trigger] items[k], member_name)
    }

    /// Whether `r` is what the search over `items` and `candidates` answers:
    /// the answer of the first candidate that answers the first protocol
    /// reached; a missing member name where the search reaches it; or
    /// nothing, once every protocol was passed.
    pub open spec fn search_answers<B>(
        &self,
        bounds: B,
        candidates: Seq<ReceiverCandidate>,
        items: Seq<CallableProtocol>,
        member_name: Option<&str>,
        r: Result<Option<SelectedMethod>, SelectionDiagnostic>,
    ) -> bool where B: Fn(&Type) -> Vec<TraitBound> {
        ||| exists|i: int, j: int|
            #![trigger items[i], candidates[j]]
            0 <= i < items.len() && self.reaches(bounds, candidates, items, member_name, i)
                && self.protocol_answers(bounds, candidates, items[i], member_name, j, r)
        ||| exists|i: int|
            #![trigger items[i]]
            0 <= i < items.len() && self.reaches(bounds, candidates, items, member_name, i)
                && self.member_name_by_id.ensures((items[i].trait_id, items[i].member_id), None::<String>)
                && r == Err::<Option<SelectedMethod>, SelectionDiagnostic>(
                SelectionDiagnostic::TraitMemberIdMissing {
                    trait_id: items[i].trait_id,
                    member_id: items[i].member_id,
                },
            )
        ||| r == Ok::<Option<SelectedMethod>, SelectionDiagnostic>(None) && self.reaches(
            bounds,
            candidates,
            items,
            member_name,
            items.len() as int,
        )
    }

    /// Selects only marker-owned members, never a similarly named inherent
    /// method: the protocol member through which one of `candidates` is
    /// called. Protocols are tried in order, and for each the candidates in
    /// order; the first answer is returned. A candidate is answered through
    /// its bounds (`bounds` gives those of a type; a native function value
    /// adds its own) or else, unless its type is an inference variable, a
    /// generic parameter or a function value, through concrete impls of the
    /// protocol's own member. A `FnMut` protocol is refused to a candidate
    /// that cannot be borrowed mutably rather than falling back to `FnOnce`.
    pub fn select_callable_method<B>(
        &self,
        candidates: &Vec<ReceiverCandidate>,
        items: &Vec<CallableProtocol>,
        bounds: B,
        member_name: Option<&str>,
    ) -> (r: Result<Option<SelectedMethod>, SelectionDiagnostic>) where
        B: Fn(&Type) -> Vec<TraitBound>,

        requires
            self.answers_all(),
            forall|ty: &Type| bounds.requires((ty,)),
        ensures
            self.search_answers(bounds, candidates@, items@, member_name, r),
            r matches Err(SelectionDiagnostic::MethodNotFound { .. }) ==> false,
            items@.len() == 0 ==> r matches Ok(None),
    {
        let mut i: usize = 0;
        while i < items.len()
            invariant
                i <= items@.len(),
                self.answers_all(),
                forall|ty: &Type| bounds.requires((ty,)),
                self.reaches(bounds, candidates@, items@, member_name, i as int),
            decreases items.len() - i,
        {
            let protocol = items[i];
            let found_name = (self.member_name_by_id)(protocol.trait_id, protocol.member_id);
            let name = match found_name {
                Some(name) => name,
                None => {
                    return Err(
                        SelectionDiagnostic::TraitMemberIdMissing {
                            trait_id: protocol.trait_id,
                            member_id: protocol.member_id,
                        },
                    );
                },
            };
            let ghost name_view = name@;
            let consulted = match member_name {
                Some(requested) => same_text(requested, name.as_str()),
                None => true,
            };
            assert(consulted == name_consulted(member_name, name_view));
            if consulted {
                let mut j: usize = 0;
                while j < candidates.len()
                    invariant
                        i < items@.len(),
                        protocol == items@[i as int],
                        j <= candidates@.len(),
                        self.answers_all(),
                        forall|ty: &Type| bounds.requires((ty,)),
                        self.reaches(bounds, candidates@, items@, member_name, i as int),
                        self.member_name_by_id.ensures(
                            (protocol.trait_id, protocol.member_id),
                            found_name,
                        ),
                        found_name matches Some(s) && s@ == name_view,
                        name@ == name_view,
                        name_consulted(member_name, name_view),
                        forall|k: int|
                            0 <= k < j ==> self.pair_gives(
                                bounds,
                                #[trigger] candidates@[k],
                                protocol,
                                name_view,
                                None,
                            ),
                    decreases candidates.len() - j,
                {
                    let candidate = &candidates[j];
                    let ty = &candidate.expr.ty;
                    let own = bounds(ty);
                    let known = (self.trait_bounds_with_supertraits)(ty, &own);
                    let available = available_bounds(known, ty, protocol);
                    assert(self.hands_bounds(bounds, ty, protocol, view_bounds(available@)));
                    let probe = ReceiverCandidate {
                        expr: clone_hir(&candidate.expr),
                        can_autoref_mut: true,
                    };
                    let name_str = name.as_str();
                    assert(name_str@ == name_view);
                    let bound_result = (self.select_bound_method)(&probe, &available, name_str, ty);
                    let ghost bound_view = bound_result;
                    let answer: Option<Result<Option<SelectedMethod>, SelectionDiagnostic>>;
                    let bound_selection = match bound_result {
                        Ok(selected) => Some(selected),
                        Err(
                            SelectionDiagnostic::AmbiguousCandidates {
                                operation,
                                receiver,
                                candidates: ids,
                            },
                        ) => {
                            let d = SelectionDiagnostic::AmbiguousCandidates {
                                operation,
                                receiver,
                                candidates: ids,
                            };
                            assert(bound_view == Err::<SelectedMethod, SelectionDiagnostic>(d));
                            assert(self.pair_gives(
                                bounds,
                                candidates@[j as int],
                                protocol,
                                name_view,
                                Some(Err::<Option<SelectedMethod>, SelectionDiagnostic>(d)),
                            ));
                            return Err(d);
                        },
                        Err(_) => None,
                    };
                    match bound_selection {
                        Some(selected) => {
                            answer = self.answer_selection(protocol, candidate, selected);
                        },
                        None => {
                            if skips_concrete_selection_exec(ty) {
                                answer = None;
                            } else {
                                let found = (self.select_concrete_method_candidates)(&probe, name_str);
                                let ghost found_view = found;
                                let mut kept = keep_allowed(found, ty, protocol);
                                if kept.len() > 1 {
                                    answer = Some(
                                        Err(
                                            SelectionDiagnostic::AmbiguousCandidates {
                                                operation: "function call".to_owned(),
                                                receiver: clone_type(ty),
                                                candidates: impl_ids(&kept),
                                            },
                                        ),
                                    );
                                } else {
                                    let ghost kept_before = kept@;
                                    match kept.pop() {
                                        Some(selected) => {
                                            assert(selected == kept_before[0]);
                                            answer = self.answer_selection(protocol, candidate, selected);
                                        },
                                        None => {
                                            answer = None;
                                        },
                                    }
                                }
                                assert(self.select_concrete_method_candidates.ensures(
                                    (&probe, name_str),
                                    found_view,
                                ));
                            }
                            assert(self.concrete_gives(probe, name_str, *candidate, protocol, answer));
                        },
                    }
                    assert(self.pair_gives(bounds, candidates@[j as int], protocol, name_view, answer));
                    match answer {
                        Some(result) => {
                            assert(self.protocol_answers(
                                bounds,
                                candidates@,
                                items@[i as int],
                                member_name,
                                j as int,
                                result,
                            ));
                            return result;
                        },
                        None => {},
                    }
                    j = j + 1;
                }
            }
            assert(self.protocol_passes(bounds, candidates@, items@[i as int], member_name));
            i = i + 1;
        }
        Ok(None)
    }

    /// What the search answers once `selected` was found for `candidate`.
    fn answer_selection(
        &self,
        protocol: CallableProtocol,
        candidate: &ReceiverCandidate,
        selected: SelectedMethod,
    ) -> (r: Option<Result<Option<SelectedMethod>, SelectionDiagnostic>>)
        ensures
            selection_answer(protocol, *candidate, selected, r),
    {
        if protocol.kind == CallableKind::FnMut && !candidate.can_autoref_mut {
            Some(
                Err(
                    SelectionDiagnostic::ReceiverMismatch {
                        operation: "mutable function call (requires a mutable receiver)".to_owned(),
                        receiver: clone_type(&candidate.expr.ty),
                    },
                ),
            )
        } else {
            Some(Ok(Some(selected)))
        }
    }

    /// Whether `sel` answers `protocol` for `candidate`: the protocol's
    /// member is named and the requested name lets it through, and `sel` is
    /// either a concrete method that is the protocol's own trait member, or
    /// what bound selection returned when handed only bounds of the
    /// protocol's trait.
    pub open spec fn answered_through<B>(
        &self,
        bounds: B,
        candidate: ReceiverCandidate,
        protocol: CallableProtocol,
        member_name: Option<&str>,
        sel: SelectedMethod,
    ) -> bool where B: Fn(&Type) -> Vec<TraitBound> {
        exists|s: String|
            #![trigger self.member_name_by_id.ensures((protocol.trait_id, protocol.member_id), Some(s))]
            self.member_name_by_id.ensures((protocol.trait_id, protocol.member_id), Some(s))
                && name_consulted(member_name, s@) && (protocol_member(sel, protocol) || exists|
                probe: ReceiverCandidate,
                available: Vec<TraitBound>,
                name_str: &str,
            |
                #![trigger self.select_bound_method.ensures(
                    (&probe, &available, name_str, &candidate.expr.ty),
                    Ok::<SelectedMethod, SelectionDiagnostic>(sel),
                )]
                {
                    &&& name_str@ == s@
                    &&& self.hands_bounds(bounds, &candidate.expr.ty, protocol, view_bounds(available@))
                    &&& forall|k: int|
                        0 <= k < view_bounds(available@).len() ==> (#[trigger] view_bounds(available@)[k]).trait_id
                            == protocol.trait_id
                    &&& self.select_bound_method.ensures(
                        (&probe, &available, name_str, &candidate.expr.ty),
                        Ok::<SelectedMethod, SelectionDiagnostic>(sel),
                    )
                })
    }

    /// Callable selection selects only marker-owned members: whatever it
    /// selects answers one of the callable protocols, for one of the
    /// candidates, through that protocol's own trait member or through bounds
    /// of that protocol's trait alone; an inherent method of the same name is
    /// never selected from concrete impls.
    pub proof fn lemma_selection_through_protocol<B>(
        &self,
        bounds: B,
        candidates: Seq<ReceiverCandidate>,
        items: Seq<CallableProtocol>,
        member_name: Option<&str>,
        sel: SelectedMethod,
    ) where B: Fn(&Type) -> Vec<TraitBound>
        requires
            self.search_answers(
                bounds,
                candidates,
                items,
                member_name,
                Ok::<Option<SelectedMethod>, SelectionDiagnostic>(Some(sel)),
            ),
        ensures
            exists|i: int, j: int|
                #![trigger items[i], candidates[j]]
                0 <= i < items.len() && 0 <= j < candidates.len() && self.answered_through(
                    bounds,
                    candidates[j],
                    items[i],
                    member_name,
                    sel,
                ),
    {
        let r = Ok::<Option<SelectedMethod>, SelectionDiagnostic>(Some(sel));
        let (i, j) = choose|i: int, j: int|
            #![trigger items[i], candidates[j]]
            0 <= i < items.len() && self.reaches(bounds, candidates, items, member_name, i)
                && self.protocol_answers(bounds, candidates, items[i], member_name, j, r);
        let protocol = items[i];
        let candidate = candidates[j];
        let name = choose|name: Option<String>|
            #![trigger self.member_name_by_id.ensures((protocol.trait_id, protocol.member_id), name)]
            self.member_name_by_id.ensures((protocol.trait_id, protocol.member_id), name) && match name {
                Some(s) => name_consulted(member_name, s@) && 0 <= j < candidates.len() && (forall|k: int|
                    0 <= k < j ==> self.pair_gives(bounds, #[trigger] candidates[k], protocol, s@, None))
                    && self.pair_gives(bounds, candidates[j], protocol, s@, Some(r)),
                None => false,
            };
        let s = name->0;
        assert(self.pair_gives(bounds, candidate, protocol, s@, Some(r)));
        let (probe, available, name_str, bound_result) = choose|
            probe: ReceiverCandidate,
            available: Vec<TraitBound>,
            name_str: &str,
            bound_result: Result<SelectedMethod, SelectionDiagnostic>,
        |
            #![trigger self.select_bound_method.ensures(
                (&probe, &available, name_str, &candidate.expr.ty),
                bound_result,
            )]
            {
                &&& probe.expr@ == candidate.expr@
                &&& probe.can_autoref_mut
                &&& name_str@ == s@
                &&& self.hands_bounds(bounds, &candidate.expr.ty, protocol, view_bounds(available@))
                &&& self.select_bound_method.ensures(
                    (&probe, &available, name_str, &candidate.expr.ty),
                    bound_result,
                )
                &&& match bound_result {
                    Ok(selected) => selection_answer(protocol, candidate, selected, Some(r)),
                    Err(d) => if d is AmbiguousCandidates {
                        Some(r) == Some(Err::<Option<SelectedMethod>, SelectionDiagnostic>(d))
                    } else {
                        self.concrete_gives(probe, name_str, candidate, protocol, Some(r))
                    },
                }
            };
        match bound_result {
            Ok(selected) => {
                assert(selected == sel);
                let (own, known) = choose|own: Vec<TraitBound>, known: Vec<TraitBound>|
                    #![trigger bounds.ensures((&candidate.expr.ty,), own), self.trait_bounds_with_supertraits.ensures((&candidate.expr.ty, &own), known)]
                    bounds.ensures((&candidate.expr.ty,), own) && self.trait_bounds_with_supertraits.ensures(
                        (&candidate.expr.ty, &own),
                        known,
                    ) && view_bounds(available@) == spec_available_bounds(
                        view_bounds(known@),
                        candidate.expr.ty@,
                        protocol,
                    );
                let all = match native_bound(candidate.expr.ty@, protocol) {
                    Some(b) => view_bounds(known@).push(b),
                    None => view_bounds(known@),
                };
                lemma_bounds_of_trait_name_it(all, protocol.trait_id);
                assert(self.answered_through(bounds, candidate, protocol, member_name, sel));
            },
            Err(d) => {
                let ty = candidate.expr.ty@;
                let found = choose|found: Vec<SelectedMethod>|
                    #![trigger self.select_concrete_method_candidates.ensures((&probe, name_str), found)]
                    self.select_concrete_method_candidates.ensures((&probe, name_str), found) && {
                        let kept = allowed_among(found@, ty, protocol);
                        if kept.len() > 1 {
                            Some(r) matches Some(
                                Err(SelectionDiagnostic::AmbiguousCandidates { operation, receiver, candidates }),
                            ) && operation@ == "function call"@ && receiver@ == ty && candidates@
                                == impl_ids_of(kept)
                        } else if kept.len() == 1 {
                            selection_answer(protocol, candidate, kept[0], Some(r))
                        } else {
                            Some(r) is None
                        }
                    };
                let kept = allowed_among(found@, ty, protocol);
                lemma_allowed_among_allowed(found@, ty, protocol);
                assert(kept[0] == sel);
                assert(protocol_member(sel, protocol));
                assert(self.answered_through(bounds, candidate, protocol, member_name, sel));
            },
        }
    }
}

/// Whether a selected method is a protocol's own trait member in a concrete impl.
pub open spec fn protocol_member(sel: SelectedMethod, protocol: CallableProtocol) -> bool {
    &&& sel.target.spec_trait_id() == Some(protocol.trait_id)
    &&& sel.target.target matches HirSelectedMethodTarget::ImplMethod { selected_trait: Some(member), .. }
        && member.member_id == protocol.member_id
}

/// Every bound kept for a trait names that trait.
proof fn lemma_bounds_of_trait_name_it(bounds: Seq<SpecTraitBound>, trait_id: DefId)
    ensures
        forall|k: int|
            0 <= k < bounds_of_trait(bounds, trait_id).len() ==> (#[trigger] bounds_of_trait(bounds, trait_id)[k]).trait_id
                == trait_id,
    decreases bounds.len(),
{
    if bounds.len() > 0 {
        lemma_bounds_of_trait_name_it(bounds.drop_last(), trait_id);
        let rest = bounds_of_trait(bounds.drop_last(), trait_id);
        let all = bounds_of_trait(bounds, trait_id);
        assert forall|k: int| 0 <= k < all.len() implies (#[trigger] all[k]).trait_id == trait_id by {
            if k < rest.len() {
                assert(all[k] == rest[k]);
            }
        }
    }
}

/// Every method kept among those found answers the protocol.
proof fn lemma_allowed_among_allowed(found: Seq<SelectedMethod>, ty: SpecType, protocol: CallableProtocol)
    ensures
        forall|k: int|
            0 <= k < allowed_among(found, ty, protocol).len() ==> concrete_candidate_allowed(
                ty,
                #[trigger] allowed_among(found, ty, protocol)[k],
                protocol,
            ),
    decreases found.len(),
{
    if found.len() > 0 {
        lemma_allowed_among_allowed(found.drop_last(), ty, protocol);
        let rest = allowed_among(found.drop_last(), ty, protocol);
        let all = allowed_among(found, ty, protocol);
        assert forall|k: int| 0 <= k < all.len() implies concrete_candidate_allowed(ty, #[trigger] all[k], protocol) by {
            if k < rest.len() {
                assert(all[k] == rest[k]);
            }
        }
    }
}

/// The methods among `found`, in order, that answer `protocol` for a candidate of type `ty`.
pub open spec fn allowed_among(found: Seq<SelectedMethod>, ty: SpecType, protocol: CallableProtocol) -> Seq<
    SelectedMethod,
>
    decreases found.len(),
{
    if found.len() == 0 {
        Seq::empty()
    } else {
        let before = allowed_among(found.drop_last(), ty, protocol);
        if concrete_candidate_allowed(ty, found.last(), protocol) {
            before.push(found.last())
        } else {
            before
        }
    }
}

/// The impls, in order, that define the given methods, where known.
pub open spec fn impl_ids_of(selected: Seq<SelectedMethod>) -> Seq<DefId>
    decreases selected.len(),
{
    if selected.len() == 0 {
        Seq::empty()
    } else {
        let before = impl_ids_of(selected.drop_last());
        match selected.last().target.spec_impl_id() {
            Some(id) => before.push(id),
            None => before,
        }
    }
}

/// The concrete methods among `found` that answer `protocol` for a candidate of type `ty`.
fn keep_allowed(found: Vec<SelectedMethod>, ty: &Type, protocol: CallableProtocol) -> (r: Vec<
    SelectedMethod,
>)
    ensures
        forall|k: int| 0 <= k < r@.len() ==> concrete_candidate_allowed(ty@, #[trigger] r@[k], protocol),
        r@ == allowed_among(found@, ty@, protocol),
{
    let ghost given = found@;
    let mut found = found;
    let mut kept: Vec<SelectedMethod> = Vec::new();
    assert(given.skip(0) =~= given);
    while found.len() > 0
        invariant
            found@.len() <= given.len(),
            found@ == given.skip(given.len() - found@.len()),
            kept@ == allowed_among(given.take(given.len() - found@.len()), ty@, protocol),
            forall|k: int|
                0 <= k < kept@.len() ==> concrete_candidate_allowed(ty@, #[trigger] kept@[k], protocol),
        decreases found.len(),
    {
        let ghost done = given.len() - found@.len();
        let selected = found.remove(0);
        assert(selected == given[done]);
        assert(given.take(done + 1).drop_last() =~= given.take(done));
        assert(given.take(done + 1).last() == given[done]);
        assert(found@ =~= given.skip(done + 1));
        if concrete_candidate_allowed_exec(ty, &selected, protocol) {
            kept.push(selected);
        }
    }
    assert(given.take(given.len() as int) =~= given);
    kept
}

/// The impls that define the given methods, where known.
fn impl_ids(selected: &Vec<SelectedMethod>) -> (r: Vec<DefId>)
    ensures
        r@ == impl_ids_of(selected@),
{
    let mut ids: Vec<DefId> = Vec::new();
    let mut i: usize = 0;
    while i < selected.len()
        invariant
            i <= selected@.len(),
            ids@ == impl_ids_of(selected@.take(i as int)),
        decreases selected.len() - i,
    {
        assert(selected@.take(i + 1).drop_last() =~= selected@.take(i as int));
        assert(selected@.take(i + 1).last() == selected@[i as int]);
        if let Some(id) = selected[i].target.impl_id() {
            ids.push(id);
        }
        i = i + 1;
    }
    assert(selected@.take(selected@.len() as int) =~= selected@);
    ids
}

/// Whether an expression denotes a place (a variable, a field, a tuple
/// element or a dereference) rather than a temporary value.
pub open spec fn is_place(kind: HirExprKind) -> bool {
    ||| kind is Var
    ||| kind is ResolvedVar
    ||| kind is FieldAccess
    ||| kind is TupleIndex
    ||| kind is Deref
}

/// Updates whether a candidate receiver of a call may be borrowed mutably:
/// it may if it already could, if it is a mutable place, if its type is a
/// mutable reference, or if it is a temporary rather than a place.
pub fn refresh_autoref_mut(candidate: &mut ReceiverCandidate, is_mutable_place: bool)
    ensures
        final(candidate).expr == old(candidate).expr,
        final(candidate).can_autoref_mut == (old(candidate).can_autoref_mut || is_mutable_place
            || old(candidate).expr.ty@ matches SpecType::Reference { mutable: true, .. }
            || !is_place(old(candidate).expr.kind)),
{
    let mutable_reference = match &candidate.expr.ty {
        Type::Reference { mutable, .. } => *mutable,
        _ => false,
    };
    let place = match &candidate.expr.kind {
        HirExprKind::Var(_) => true,
        HirExprKind::ResolvedVar(_) => true,
        HirExprKind::FieldAccess(..) => true,
        HirExprKind::TupleIndex(..) => true,
        HirExprKind::Deref(_) => true,
        _ => false,
    };
    candidate.can_autoref_mut = candidate.can_autoref_mut || is_mutable_place || mutable_reference
        || !place;
}

} // verus!
