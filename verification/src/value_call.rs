use vstd::prelude::*;
use crate::bindings::ResolveError;
use crate::callable::{
    pack_call_arguments, spec_pack_arguments, strip_references, strip_references_exec,
    ReceiverCandidate, SelectedMethod, SelectionDiagnostic,
};
use crate::hir::{view_call_target, GenericParamDecl, HirMethodCallTarget};
use crate::hir_expr::{
    clone_hir, clone_hirs, view_hir, view_hirs, HirExpr, HirExprKind, SpecHirExpr, SpecHirKind, Span,
};
use crate::ids::GenericParamId;
use crate::subst::{subst_type, Substitution};
use crate::types::{clone_type, view_types, CallableKind, FunctionSafety, Kind, SpecType, Type};

verus! {

// ---------------------------------------------------------------------------
// Checking a call of a value: `callee(args)` where the callee is a function
// value or something that implements a callable protocol.
//
// The check alternates between decisions, taken here, and work of type
// inference (resolving and unifying types, fresh inference variables,
// rendering types and failures for messages, selecting callable members).
// Inference starts a check, performs each request it receives and answers
// it, until the check hands back the call as it now stands with the errors
// it found.
// ---------------------------------------------------------------------------

/// A call `callee(args)` of type `ty` at `span`, taken apart.
#[derive(Debug)]
pub struct CallParts {
    pub callee: HirExpr,
    pub args: Vec<HirExpr>,
    pub ty: Type,
    pub span: Span,
}

/// Where a check stands: what it waits for, and what it has learnt so far.
#[derive(Debug)]
pub enum ValueCallStage {
    /// Waits for the callee's type as inference resolves it.
    CalleeType(CallParts),
    /// Waits for the outcome of unifying an unresolved callee type with the
    /// call's own signature.
    SignatureUnified(CallParts),
    /// Waits for the callee's type once that unification succeeded.
    CalleeTypeAgain(CallParts),
    /// A direct call of a function value of type `ty`: waits for the checked arguments.
    Arguments { call: CallParts, ty: Type, ret: Type, safety: FunctionSafety },
    /// Waits for the outcome of unifying the function's result with the call's type.
    ResultUnified { call: CallParts, ty: Type, safety: FunctionSafety },
    /// Waits for the receiver candidates of a callee of type `ty`.
    Candidates { call: CallParts, ty: Type },
    /// Waits for the callable member selected for those candidates.
    Selection { call: CallParts, ty: Type },
    /// Waits for the callee's type, rendered for a message.
    NotCallable(CallParts),
    /// Waits for a selection failure, rendered for a message.
    SelectionFailed(CallParts),
    /// Waits for a fresh inference variable for the member's generic
    /// parameter at `next`, which `subst` leaves open.
    FreshVariables {
        call: CallParts,
        selected: SelectedMethod,
        packed: HirExpr,
        subst: Substitution,
        next: usize,
    },
    /// Waits for the outcome of unifying the member's parameter with the packed arguments.
    ArgumentUnified { call: CallParts, selected: SelectedMethod, packed: HirExpr, subst: Substitution },
    /// Waits for the outcome of unifying the member's result with the call's type.
    MemberResultUnified {
        call: CallParts,
        selected: SelectedMethod,
        packed: HirExpr,
        subst: Substitution,
        result: Type,
    },
    /// Waits for the member's call target, the adjusted receiver and the
    /// resolved result type.
    Completion { call: CallParts, name: String, self_receiver: bool, packed: HirExpr },
    /// The check is over.
    Finished,
}

/// A check of one value call.
#[derive(Debug)]
pub struct ValueCallCheck {
    /// Whether failures to resolve the call are reported.
    pub strict: bool,
    /// Whether the call stands in an unsafe context.
    pub unsafe_context: bool,
    /// The errors found so far.
    pub errors: Vec<ResolveError>,
    pub stage: ValueCallStage,
}

/// Work type inference performs for a check.
#[derive(Debug)]
pub enum ValueCallRequest {
    /// Resolve a type through the current inference state; answered by `Type`.
    ResolveType(Type),
    /// Unify two types; answered by `Unified`, with the rendered failure.
    Unify(Type, Type),
    /// Check the arguments of a direct call of `callee`; answered by `Arguments`.
    CheckArguments { callee: HirExpr, args: Vec<HirExpr> },
    /// The receiver candidates of a callee, with their types resolved;
    /// answered by `Candidates`.
    ReceiverCandidates(HirExpr),
    /// Select the callable member among the candidates, whatever its name;
    /// answered by `Selection`.
    SelectCallable(Vec<ReceiverCandidate>),
    /// Render a type; answered by `Text`.
    DisplayType(Type),
    /// Render a selection failure; answered by `Text`.
    DisplaySelectionError(SelectionDiagnostic),
    /// A fresh inference variable of a kind, at a span; answered by `Type`.
    FreshTypeVar(Kind, Span),
    /// Record the member's bounds under `subst`, build its call target,
    /// adjust its receiver and resolve `result`; answered by `Completed`.
    Complete { selected: SelectedMethod, subst: Substitution, result: Type },
    /// The check is over: the call as it now stands, and every error found.
    Done { expr: HirExpr, errors: Vec<ResolveError> },
}

/// What type inference answers.
#[derive(Debug)]
pub enum ValueCallAnswer {
    Type(Type),
    Unified(Result<(), String>),
    Arguments { args: Vec<HirExpr>, errors: Vec<ResolveError> },
    Candidates(Vec<ReceiverCandidate>),
    Selection(Result<Option<SelectedMethod>, SelectionDiagnostic>),
    Text(String),
    Completed { target: HirMethodCallTarget, receiver: HirExpr, result_ty: Type },
}

// ---------------------------------------------------------------------------
// Messages.
// ---------------------------------------------------------------------------

pub open spec fn digit(d: int) -> char {
    seq!['0', '1', '2', '3', '4', '5', '6', '7', '8', '9'][d]
}

/// The decimal digits of `n`.
pub open spec fn decimal(n: nat) -> Seq<char>
    decreases n,
{
    if n < 10 {
        seq![digit(n as int)]
    } else {
        decimal(n / 10) + seq![digit((n % 10) as int)]
    }
}

pub open spec fn arity_message(expected: nat, received: nat) -> Seq<char> {
    "function expects "@ + decimal(expected) + " arguments but received "@ + decimal(received)
}

pub open spec fn not_callable_message(rendered: Seq<char>) -> Seq<char> {
    "value of type "@ + rendered + " is not callable"@
}

pub open spec fn unsafe_value_message() -> Seq<char> {
    "Call to unsafe function value requires an unsafe block"@
}

pub open spec fn unsafe_callable_message() -> Seq<char> {
    "Call to unsafe callable requires an unsafe block"@
}

fn digit_text(d: usize) -> (r: &'static str)
    requires
        d < 10,
    ensures
        r@ == seq![digit(d as int)],
{
    if d == 0 {
        proof { reveal_strlit("0"); }
        "0"
    } else if d == 1 {
        proof { reveal_strlit("1"); }
        "1"
    } else if d == 2 {
        proof { reveal_strlit("2"); }
        "2"
    } else if d == 3 {
        proof { reveal_strlit("3"); }
        "3"
    } else if d == 4 {
        proof { reveal_strlit("4"); }
        "4"
    } else if d == 5 {
        proof { reveal_strlit("5"); }
        "5"
    } else if d == 6 {
        proof { reveal_strlit("6"); }
        "6"
    } else if d == 7 {
        proof { reveal_strlit("7"); }
        "7"
    } else if d == 8 {
        proof { reveal_strlit("8"); }
        "8"
    } else {
        proof { reveal_strlit("9"); }
        "9"
    }
}

fn push_decimal(out: &mut String, n: usize)
    ensures
        final(out)@ == old(out)@ + decimal(n as nat),
    decreases n,
{
    if n >= 10 {
        push_decimal(out, n / 10);
    }
    out.append(digit_text(n % 10));
    proof {
        if n >= 10 {
            assert(old(out)@ + decimal(n as nat) =~= old(out)@ + decimal((n / 10) as nat) + seq![
                digit((n % 10) as int),
            ]);
        }
    }
}

fn arity_text(expected: usize, received: usize) -> (r: String)
    ensures
        r@ == arity_message(expected as nat, received as nat),
{
    let mut m = "function expects ".to_owned();
    push_decimal(&mut m, expected);
    m.append(" arguments but received ");
    push_decimal(&mut m, received);
    m
}

// ---------------------------------------------------------------------------
// The mathematical values the protocol speaks of.
// ---------------------------------------------------------------------------

/// The call a [`CallParts`] takes apart.
pub open spec fn view_call(c: CallParts) -> SpecHirExpr {
    SpecHirExpr {
        ty: c.ty@,
        kind: SpecHirKind::Call(Box::new(c.callee@), view_hirs(c.args@)),
        span: c.span,
    }
}

/// Errors as messages at spans.
pub open spec fn view_errors(es: Seq<ResolveError>) -> Seq<(Seq<char>, Span)> {
    es.map_values(|e: ResolveError| (e.message@, e.span))
}

/// The types of expressions.
pub open spec fn hir_types(es: Seq<SpecHirExpr>) -> Seq<SpecType> {
    es.map_values(|e: SpecHirExpr| e.ty)
}

/// The signature a call gives an unresolved callee: its arguments' types and its own type.
pub open spec fn call_signature(call: CallParts) -> SpecType {
    SpecType::Function {
        params: hir_types(view_hirs(call.args@)),
        ret: Box::new(call.ty@),
        safety: FunctionSafety::Safe,
        callable_kind: CallableKind::Fn,
        captures: Seq::empty(),
    }
}

/// The first generic parameter from `from` on that `m` leaves open.
pub open spec fn first_open(params: Seq<GenericParamDecl>, m: Map<GenericParamId, SpecType>, from: int) -> Option<
    int,
>
    decreases params.len() - from,
{
    if from < 0 || from >= params.len() {
        None
    } else if !m.contains_key(params[from].id) {
        Some(from)
    } else {
        first_open(params, m, from + 1)
    }
}

/// The check is over with the call `expr` and the errors `errors`.
pub open spec fn finished(t: ValueCallCheck, r: ValueCallRequest, expr: SpecHirExpr, errors: Seq<(Seq<char>, Span)>) -> bool {
    &&& t.stage is Finished
    &&& r matches ValueCallRequest::Done { expr: e, errors: es }
    &&& e@ == expr
    &&& view_errors(es@) == errors
}

/// The check is over with the call unchanged and no new error.
pub open spec fn gives_up(s: ValueCallCheck, call: CallParts, t: ValueCallCheck, r: ValueCallRequest) -> bool {
    finished(t, r, view_call(call), view_errors(s.errors@))
}

/// The check is over with the call unchanged and one more error.
pub open spec fn reports(s: ValueCallCheck, call: CallParts, message: Seq<char>, span: Span, t: ValueCallCheck, r: ValueCallRequest) -> bool {
    finished(t, r, view_call(call), view_errors(s.errors@).push((message, span)))
}

/// Same settings and errors; the check goes on.
pub open spec fn goes_on(s: ValueCallCheck, t: ValueCallCheck) -> bool {
    &&& t.errors@ == s.errors@
    &&& !(t.stage is Finished)
}

/// With the callee's type `ty` known and not an unresolved variable: a
/// function value (seen through references) is called directly, if it takes
/// as many arguments as the call passes; anything else goes through the
/// callable protocols.
pub open spec fn dispatch(s: ValueCallCheck, call: CallParts, ty: SpecType, t: ValueCallCheck, r: ValueCallRequest) -> bool {
    match strip_references(ty) {
        SpecType::Function { params, ret, safety, .. } => if params.len() != call.args@.len() {
            reports(s, call, arity_message(params.len(), call.args@.len()), call.span, t, r)
        } else {
            &&& goes_on(s, t)
            &&& t.stage matches ValueCallStage::Arguments { call: c, ty: fty, ret: fret, safety: fsafety }
            &&& view_call(c) == view_call(call) && fty@ == ty && fret@ == *ret && fsafety == safety
            &&& r matches ValueCallRequest::CheckArguments { callee, args }
            &&& callee@.ty == strip_references(ty) && callee@.kind == call.callee@.kind && callee@.span
                == call.callee@.span
            &&& view_hirs(args@) == view_hirs(call.args@)
        },
        _ => {
            &&& goes_on(s, t)
            &&& t.stage matches ValueCallStage::Candidates { call: c, ty: cty }
            &&& view_call(c) == view_call(call) && cty@ == ty
            &&& r matches ValueCallRequest::ReceiverCandidates(callee)
            &&& callee@ == call.callee@
        },
    }
}

/// With the callee's type `ty` as inference first resolves it.
pub open spec fn after_callee_type(s: ValueCallCheck, call: CallParts, ty: SpecType, t: ValueCallCheck, r: ValueCallRequest) -> bool {
    if ty is TypeVar {
        if !s.strict {
            gives_up(s, call, t, r)
        } else {
            &&& goes_on(s, t)
            &&& t.stage matches ValueCallStage::SignatureUnified(c)
            &&& view_call(c) == view_call(call)
            &&& r matches ValueCallRequest::Unify(a, b)
            &&& a@ == ty && b@ == call_signature(call)
        }
    } else {
        dispatch(s, call, ty, t, r)
    }
}

/// Asks for a fresh variable for the first generic parameter of `selected`'s
/// function from `from` on that `m` leaves open; once none is, unifies the
/// member's first parameter under `m` with the packed arguments, and gives up
/// if the member has no parameter.
pub open spec fn seeds(
    s: ValueCallCheck,
    call: CallParts,
    selected: SelectedMethod,
    packed: SpecHirExpr,
    m: Map<GenericParamId, SpecType>,
    from: int,
    t: ValueCallCheck,
    r: ValueCallRequest,
) -> bool {
    let params = selected.function->0.generic_params@;
    match first_open(params, m, from) {
        Some(i) => {
            &&& goes_on(s, t)
            &&& t.stage matches ValueCallStage::FreshVariables { call: c, selected: sel, packed: p, subst, next }
            &&& view_call(c) == view_call(call) && sel == selected && p@ == packed && subst@ == m
                && next == i
            &&& r matches ValueCallRequest::FreshTypeVar(kind, span)
            &&& kind == params[i].kind && span == call.span
        },
        None => if selected.substituted_params@.len() == 0 {
            gives_up(s, call, t, r)
        } else {
            &&& goes_on(s, t)
            &&& t.stage matches ValueCallStage::ArgumentUnified { call: c, selected: sel, packed: p, subst }
            &&& view_call(c) == view_call(call) && sel == selected && p@ == packed && subst@ == m
            &&& r matches ValueCallRequest::Unify(a, b)
            &&& a@ == subst_type(selected.substituted_params@[0]@, m) && b@ == packed.ty
        },
    }
}

/// With the callable member `selected` that selection settled on.
pub open spec fn after_selected(s: ValueCallCheck, call: CallParts, selected: SelectedMethod, t: ValueCallCheck, r: ValueCallRequest) -> bool {
    match selected.function {
        None => gives_up(s, call, t, r),
        Some(f) => if f.is_unsafe && !s.unsafe_context {
            reports(s, call, unsafe_callable_message(), call.span, t, r)
        } else {
            seeds(
                s,
                call,
                selected,
                spec_pack_arguments(view_hirs(call.args@), call.span),
                selected.owner_substitution@,
                0,
                t,
                r,
            )
        },
    }
}

/// How a check goes on from `s` with the answer `a`: to `t`, asking `r`.
/// An answer of another sort than the stage waits for ends the check with
/// the call unchanged.
pub open spec fn transition(s: ValueCallCheck, a: ValueCallAnswer, t: ValueCallCheck, r: ValueCallRequest) -> bool {
    match s.stage {
        ValueCallStage::CalleeType(call) => match a {
            ValueCallAnswer::Type(ty) => after_callee_type(s, call, ty@, t, r),
            _ => gives_up(s, call, t, r),
        },
        ValueCallStage::SignatureUnified(call) => match a {
            ValueCallAnswer::Unified(Ok(())) => {
                &&& goes_on(s, t)
                &&& t.stage matches ValueCallStage::CalleeTypeAgain(c)
                &&& view_call(c) == view_call(call)
                &&& r matches ValueCallRequest::ResolveType(x)
                &&& x@ == call.callee.ty@
            },
            _ => gives_up(s, call, t, r),
        },
        ValueCallStage::CalleeTypeAgain(call) => match a {
            ValueCallAnswer::Type(ty) => dispatch(s, call, ty@, t, r),
            _ => gives_up(s, call, t, r),
        },
        ValueCallStage::Arguments { call, ty, ret, safety } => match a {
            ValueCallAnswer::Arguments { args, errors } => {
                &&& t.errors@ == s.errors@ + errors@
                &&& t.stage matches ValueCallStage::ResultUnified { call: c, ty: fty, safety: fsafety }
                &&& c.callee@ == call.callee@ && view_hirs(c.args@) == view_hirs(args@) && c.ty@
                    == call.ty@ && c.span == call.span
                &&& fty@ == ty@ && fsafety == safety
                &&& r matches ValueCallRequest::Unify(x, y)
                &&& x@ == ret@ && y@ == call.ty@
            },
            _ => gives_up(s, call, t, r),
        },
        ValueCallStage::ResultUnified { call, ty, safety } => match a {
            ValueCallAnswer::Unified(outcome) => {
                let e1 = match outcome {
                    Err(m) => view_errors(s.errors@).push((m@, call.span)),
                    Ok(()) => view_errors(s.errors@),
                };
                let e2 = if safety == FunctionSafety::Unsafe && !s.unsafe_context {
                    e1.push((unsafe_value_message(), call.span))
                } else {
                    e1
                };
                finished(
                    t,
                    r,
                    SpecHirExpr {
                        ty: call.ty@,
                        kind: SpecHirKind::Call(
                            Box::new(SpecHirExpr { ty: ty@, kind: call.callee@.kind, span: call.callee@.span }),
                            view_hirs(call.args@),
                        ),
                        span: call.span,
                    },
                    e2,
                )
            },
            _ => gives_up(s, call, t, r),
        },
        ValueCallStage::Candidates { call, ty } => match a {
            ValueCallAnswer::Candidates(cs) => {
                &&& goes_on(s, t)
                &&& t.stage matches ValueCallStage::Selection { call: c, ty: sty }
                &&& view_call(c) == view_call(call) && sty@ == ty@
                &&& r == ValueCallRequest::SelectCallable(cs)
            },
            _ => gives_up(s, call, t, r),
        },
        ValueCallStage::Selection { call, ty } => match a {
            ValueCallAnswer::Selection(Ok(Some(selected))) => after_selected(s, call, selected, t, r),
            ValueCallAnswer::Selection(Ok(None)) => if s.strict {
                &&& goes_on(s, t)
                &&& t.stage matches ValueCallStage::NotCallable(c)
                &&& view_call(c) == view_call(call)
                &&& r matches ValueCallRequest::DisplayType(x)
                &&& x@ == ty@
            } else {
                gives_up(s, call, t, r)
            },
            ValueCallAnswer::Selection(Err(e)) => if s.strict {
                &&& goes_on(s, t)
                &&& t.stage matches ValueCallStage::SelectionFailed(c)
                &&& view_call(c) == view_call(call)
                &&& r == ValueCallRequest::DisplaySelectionError(e)
            } else {
                gives_up(s, call, t, r)
            },
            _ => gives_up(s, call, t, r),
        },
        ValueCallStage::NotCallable(call) => match a {
            ValueCallAnswer::Text(x) => reports(s, call, not_callable_message(x@), call.span, t, r),
            _ => gives_up(s, call, t, r),
        },
        ValueCallStage::SelectionFailed(call) => match a {
            ValueCallAnswer::Text(x) => reports(s, call, x@, call.span, t, r),
            _ => gives_up(s, call, t, r),
        },
        ValueCallStage::FreshVariables { call, selected, packed, subst, next } => match a {
            ValueCallAnswer::Type(v) => seeds(
                s,
                call,
                selected,
                packed@,
                subst@.insert(selected.function->0.generic_params@[next as int].id, v@),
                next + 1,
                t,
                r,
            ),
            _ => gives_up(s, call, t, r),
        },
        ValueCallStage::ArgumentUnified { call, selected, packed, subst } => match a {
            ValueCallAnswer::Unified(Ok(())) => {
                &&& goes_on(s, t)
                &&& t.stage matches ValueCallStage::MemberResultUnified {
                    call: c,
                    selected: sel,
                    packed: p,
                    subst: m,
                    result,
                }
                &&& view_call(c) == view_call(call) && sel == selected && p@ == packed@ && m@ == subst@
                &&& result@ == subst_type(selected.return_type@, subst@)
                &&& r matches ValueCallRequest::Unify(x, y)
                &&& x@ == result@ && y@ == call.ty@
            },
            ValueCallAnswer::Unified(Err(m)) => reports(s, call, m@, packed.span, t, r),
            _ => gives_up(s, call, t, r),
        },
        ValueCallStage::MemberResultUnified { call, selected, packed, subst, result } => match a {
            ValueCallAnswer::Unified(Ok(())) => {
                &&& goes_on(s, t)
                &&& t.stage matches ValueCallStage::Completion { call: c, name, self_receiver, packed: p }
                &&& view_call(c) == view_call(call) && p@ == packed@
                &&& name@ == selected.function->0.name@ && self_receiver
                    == selected.function->0.self_receiver
                &&& r matches ValueCallRequest::Complete { selected: sel, subst: m, result: res }
                &&& sel == selected && m@ == subst@ && res@ == result@
            },
            ValueCallAnswer::Unified(Err(m)) => reports(s, call, m@, call.span, t, r),
            _ => gives_up(s, call, t, r),
        },
        ValueCallStage::Completion { call, name, self_receiver, packed } => match a {
            ValueCallAnswer::Completed { target, receiver, result_ty } => finished(
                t,
                r,
                SpecHirExpr {
                    ty: result_ty@,
                    kind: SpecHirKind::MethodCall {
                        receiver: Box::new(receiver@),
                        name: name@,
                        args: seq![packed@],
                        self_receiver,
                        call_target: Some(view_call_target(target)),
                    },
                    span: call.span,
                },
                view_errors(s.errors@),
            ),
            _ => gives_up(s, call, t, r),
        },
        ValueCallStage::Finished => false,
    }
}

// ---------------------------------------------------------------------------
// The check.
// ---------------------------------------------------------------------------

/// The types of the arguments, in order.
fn arg_types(args: &Vec<HirExpr>) -> (r: Vec<Type>)
    ensures
        view_types(r@) == hir_types(view_hirs(args@)),
{
    let mut out: Vec<Type> = Vec::new();
    let mut i: usize = 0;
    while i < args.len()
        invariant
            i <= args@.len(),
            out@.len() == i,
            forall|j: int| 0 <= j < i ==> (#[trigger] out@[j])@ == args@[j].ty@,
        decreases args.len() - i,
    {
        out.push(clone_type(&args[i].ty));
        i = i + 1;
    }
    assert(view_types(out@) =~= hir_types(view_hirs(args@)));
    out
}

/// The call a [`CallParts`] takes apart, put together again.
fn unchanged(call: CallParts) -> (r: HirExpr)
    ensures
        r@ == view_call(call),
{
    HirExpr { ty: call.ty, kind: HirExprKind::Call(Box::new(call.callee), call.args), span: call.span }
}

proof fn lemma_push_error(es: Seq<ResolveError>, e: ResolveError)
    ensures
        view_errors(es.push(e)) == view_errors(es).push((e.message@, e.span)),
{
    assert(view_errors(es.push(e)) =~= view_errors(es).push((e.message@, e.span)));
}

fn finish(strict: bool, unsafe_context: bool, errors: Vec<ResolveError>, expr: HirExpr) -> (r: (
    ValueCallCheck,
    ValueCallRequest,
))
    ensures
        r.0.inv(),
        r.0.strict == strict,
        r.0.unsafe_context == unsafe_context,
        finished(r.0, r.1, expr@, view_errors(errors@)),
{
    (
        ValueCallCheck { strict, unsafe_context, errors: Vec::new(), stage: ValueCallStage::Finished },
        ValueCallRequest::Done { expr, errors },
    )
}

fn give_up(strict: bool, unsafe_context: bool, errors: Vec<ResolveError>, call: CallParts) -> (r: (
    ValueCallCheck,
    ValueCallRequest,
))
    ensures
        r.0.inv(),
        r.0.strict == strict,
        r.0.unsafe_context == unsafe_context,
        finished(r.0, r.1, view_call(call), view_errors(errors@)),
{
    finish(strict, unsafe_context, errors, unchanged(call))
}

fn report(
    strict: bool,
    unsafe_context: bool,
    errors: Vec<ResolveError>,
    call: CallParts,
    message: String,
    span: Span,
) -> (r: (ValueCallCheck, ValueCallRequest))
    ensures
        r.0.inv(),
        r.0.strict == strict,
        r.0.unsafe_context == unsafe_context,
        finished(r.0, r.1, view_call(call), view_errors(errors@).push((message@, span))),
{
    let mut errors = errors;
    let e = ResolveError { message, span };
    proof {
        lemma_push_error(errors@, e);
    }
    errors.push(e);
    give_up(strict, unsafe_context, errors, call)
}

/// The first generic parameter from `from` on that `subst` leaves open.
fn next_open(params: &Vec<GenericParamDecl>, subst: &Substitution, from: usize) -> (r: Option<usize>)
    requires
        subst.wf(),
    ensures
        r matches Some(i) ==> first_open(params@, subst@, from as int) == Some(i as int) && from <= i
            < params@.len(),
        r is None ==> first_open(params@, subst@, from as int) is None,
{
    let mut i = from;
    while i < params.len()
        invariant
            subst.wf(),
            from <= i,
            first_open(params@, subst@, from as int) == first_open(params@, subst@, i as int),
        decreases params.len() - i,
    {
        if !subst.contains_key(&params[i].id) {
            return Some(i);
        }
        i = i + 1;
    }
    None
}

/// The signature's generic parameters of a member that has a signature.
fn member_params(selected: &SelectedMethod) -> (r: &Vec<GenericParamDecl>)
    requires
        selected.function is Some,
    ensures
        *r == selected.function->0.generic_params,
{
    match &selected.function {
        Some(f) => &f.generic_params,
        None => vstd::pervasive::unreached(),
    }
}

fn seed(
    strict: bool,
    unsafe_context: bool,
    errors: Vec<ResolveError>,
    call: CallParts,
    selected: SelectedMethod,
    packed: HirExpr,
    subst: Substitution,
    from: usize,
    Ghost(s): Ghost<ValueCallCheck>,
) -> (r: (ValueCallCheck, ValueCallRequest))
    requires
        s.strict == strict,
        s.unsafe_context == unsafe_context,
        s.errors@ == errors@,
        selected.function is Some,
        subst.wf(),
    ensures
        r.0.inv(),
        r.0.strict == strict,
        r.0.unsafe_context == unsafe_context,
        seeds(s, call, selected, packed@, subst@, from as int, r.0, r.1),
{
    let next = next_open(member_params(&selected), &subst, from);
    let span = call.span;
    match next {
        Some(i) => {
            let kind = member_params(&selected)[i].kind;
            (
                ValueCallCheck {
                    strict,
                    unsafe_context,
                    errors,
                    stage: ValueCallStage::FreshVariables { call, selected, packed, subst, next: i },
                },
                ValueCallRequest::FreshTypeVar(kind, span),
            )
        },
        None => {
            if selected.substituted_params.len() == 0 {
                return give_up(strict, unsafe_context, errors, call);
            }
            let expected = selected.substituted_params[0].substitute_generics(&subst);
            let argument = clone_type(&packed.ty);
            (
                ValueCallCheck {
                    strict,
                    unsafe_context,
                    errors,
                    stage: ValueCallStage::ArgumentUnified { call, selected, packed, subst },
                },
                ValueCallRequest::Unify(expected, argument),
            )
        },
    }
}

fn on_selected(
    strict: bool,
    unsafe_context: bool,
    errors: Vec<ResolveError>,
    call: CallParts,
    selected: SelectedMethod,
    Ghost(s): Ghost<ValueCallCheck>,
) -> (r: (ValueCallCheck, ValueCallRequest))
    requires
        s.strict == strict,
        s.unsafe_context == unsafe_context,
        s.errors@ == errors@,
        selected.owner_substitution.wf(),
    ensures
        r.0.inv(),
        r.0.strict == strict,
        r.0.unsafe_context == unsafe_context,
        after_selected(s, call, selected, r.0, r.1),
{
    let is_unsafe = match &selected.function {
        Some(f) => f.is_unsafe,
        None => {
            return give_up(strict, unsafe_context, errors, call);
        },
    };
    if is_unsafe && !unsafe_context {
        let message = "Call to unsafe callable requires an unsafe block".to_owned();
        let span = call.span;
        return report(strict, unsafe_context, errors, call, message, span);
    }
    let packed = pack_call_arguments(clone_hirs(&call.args), call.span);
    let subst = selected.owner_substitution.clone();
    seed(strict, unsafe_context, errors, call, selected, packed, subst, 0, Ghost(s))
}

fn dispatch_call(
    strict: bool,
    unsafe_context: bool,
    errors: Vec<ResolveError>,
    call: CallParts,
    ty: Type,
    Ghost(s): Ghost<ValueCallCheck>,
) -> (r: (ValueCallCheck, ValueCallRequest))
    requires
        s.strict == strict,
        s.unsafe_context == unsafe_context,
        s.errors@ == errors@,
    ensures
        r.0.inv(),
        r.0.strict == strict,
        r.0.unsafe_context == unsafe_context,
        dispatch(s, call, ty@, r.0, r.1),
{
    let native = strip_references_exec(&ty);
    match native {
        Type::Function { params, ret, safety, .. } => {
            assert(view_types(params@).len() == params@.len());
            if params.len() != call.args.len() {
                let message = arity_text(params.len(), call.args.len());
                let span = call.span;
                return report(strict, unsafe_context, errors, call, message, span);
            }
            let ret = clone_type(ret);
            let safety = *safety;
            let mut callee = clone_hir(&call.callee);
            callee.ty = clone_type(native);
            let args = clone_hirs(&call.args);
            (
                ValueCallCheck {
                    strict,
                    unsafe_context,
                    errors,
                    stage: ValueCallStage::Arguments { call, ty, ret, safety },
                },
                ValueCallRequest::CheckArguments { callee, args },
            )
        },
        _ => {
            let callee = clone_hir(&call.callee);
            (
                ValueCallCheck {
                    strict,
                    unsafe_context,
                    errors,
                    stage: ValueCallStage::Candidates { call, ty },
                },
                ValueCallRequest::ReceiverCandidates(callee),
            )
        },
    }
}

fn on_callee_type(
    strict: bool,
    unsafe_context: bool,
    errors: Vec<ResolveError>,
    call: CallParts,
    ty: Type,
    Ghost(s): Ghost<ValueCallCheck>,
) -> (r: (ValueCallCheck, ValueCallRequest))
    requires
        s.strict == strict,
        s.unsafe_context == unsafe_context,
        s.errors@ == errors@,
    ensures
        r.0.inv(),
        r.0.strict == strict,
        r.0.unsafe_context == unsafe_context,
        after_callee_type(s, call, ty@, r.0, r.1),
{
    if let Type::TypeVar(_) = ty {
        if !strict {
            return give_up(strict, unsafe_context, errors, call);
        }
        let signature = Type::function(arg_types(&call.args), clone_type(&call.ty));
        return (
            ValueCallCheck {
                strict,
                unsafe_context,
                errors,
                stage: ValueCallStage::SignatureUnified(call),
            },
            ValueCallRequest::Unify(ty, signature),
        );
    }
    dispatch_call(strict, unsafe_context, errors, call, ty, Ghost(s))
}

impl ValueCallCheck {
    /// Nothing the check holds is out of step: a substitution it extends is
    /// well formed, and the member it works on has a signature.
    pub open spec fn inv(&self) -> bool {
        match self.stage {
            ValueCallStage::FreshVariables { selected, subst, next, .. } => {
                &&& subst.wf()
                &&& selected.function is Some
                &&& next < selected.function->0.generic_params@.len()
            },
            ValueCallStage::ArgumentUnified { selected, subst, .. } => subst.wf()
                && selected.function is Some,
            ValueCallStage::MemberResultUnified { selected, subst, .. } => subst.wf()
                && selected.function is Some,
            _ => true,
        }
    }

    /// Starts the check of `expr`. Anything but a call of a value is handed
    /// back at once; for a call, the callee's type is asked for.
    pub fn start(expr: HirExpr, strict: bool, unsafe_context: bool) -> (r: (
        ValueCallCheck,
        ValueCallRequest,
    ))
        ensures
            r.0.inv(),
            r.0.strict == strict,
            r.0.unsafe_context == unsafe_context,
            expr.kind is Call ==> {
                &&& r.0.errors@.len() == 0
                &&& r.0.stage matches ValueCallStage::CalleeType(call)
                &&& view_call(call) == expr@
                &&& r.1 matches ValueCallRequest::ResolveType(t)
                &&& t@ == call.callee.ty@
            },
            !(expr.kind is Call) ==> finished(r.0, r.1, expr@, Seq::empty()),
    {
        let HirExpr { ty, kind, span } = expr;
        match kind {
            HirExprKind::Call(callee, args) => {
                let call = CallParts { callee: *callee, args, ty, span };
                let t = clone_type(&call.callee.ty);
                (
                    ValueCallCheck {
                        strict,
                        unsafe_context,
                        errors: Vec::new(),
                        stage: ValueCallStage::CalleeType(call),
                    },
                    ValueCallRequest::ResolveType(t),
                )
            },
            kind => {
                let errors: Vec<ResolveError> = Vec::new();
                proof {
                    assert(view_errors(errors@) =~= Seq::empty());
                }
                finish(strict, unsafe_context, errors, HirExpr { ty, kind, span })
            },
        }
    }

    /// Takes the answer to the last request and goes on, as [`transition`] says.
    pub fn step(self, answer: ValueCallAnswer) -> (r: (ValueCallCheck, ValueCallRequest))
        requires
            self.inv(),
            !(self.stage is Finished),
            answer matches ValueCallAnswer::Selection(Ok(Some(m))) ==> m.owner_substitution.wf(),
        ensures
            r.0.inv(),
            r.0.strict == self.strict,
            r.0.unsafe_context == self.unsafe_context,
            transition(self, answer, r.0, r.1),
    {
        let ghost s = self;
        let ValueCallCheck { strict, unsafe_context, errors, stage } = self;
        match stage {
            ValueCallStage::CalleeType(call) => match answer {
                ValueCallAnswer::Type(ty) => on_callee_type(
                    strict,
                    unsafe_context,
                    errors,
                    call,
                    ty,
                    Ghost(s),
                ),
                _ => give_up(strict, unsafe_context, errors, call),
            },
            ValueCallStage::SignatureUnified(call) => match answer {
                ValueCallAnswer::Unified(Ok(())) => {
                    let t = clone_type(&call.callee.ty);
                    (
                        ValueCallCheck {
                            strict,
                            unsafe_context,
                            errors,
                            stage: ValueCallStage::CalleeTypeAgain(call),
                        },
                        ValueCallRequest::ResolveType(t),
                    )
                },
                _ => give_up(strict, unsafe_context, errors, call),
            },
            ValueCallStage::CalleeTypeAgain(call) => match answer {
                ValueCallAnswer::Type(ty) => dispatch_call(
                    strict,
                    unsafe_context,
                    errors,
                    call,
                    ty,
                    Ghost(s),
                ),
                _ => give_up(strict, unsafe_context, errors, call),
            },
            ValueCallStage::Arguments { call, ty, ret, safety } => match answer {
                ValueCallAnswer::Arguments { args, errors: found } => {
                    let mut errors = errors;
                    let mut found = found;
                    errors.append(&mut found);
                    let mut call = call;
                    call.args = args;
                    let expected = clone_type(&call.ty);
                    (
                        ValueCallCheck {
                            strict,
                            unsafe_context,
                            errors,
                            stage: ValueCallStage::ResultUnified { call, ty, safety },
                        },
                        ValueCallRequest::Unify(ret, expected),
                    )
                },
                _ => give_up(strict, unsafe_context, errors, call),
            },
            ValueCallStage::ResultUnified { call, ty, safety } => match answer {
                ValueCallAnswer::Unified(outcome) => {
                    let mut errors = errors;
                    let span = call.span;
                    if let Err(message) = outcome {
                        let e = ResolveError { message, span };
                        proof {
                            lemma_push_error(errors@, e);
                        }
                        errors.push(e);
                    }
                    if safety == FunctionSafety::Unsafe && !unsafe_context {
                        let e = ResolveError {
                            message: "Call to unsafe function value requires an unsafe block".to_owned(),
                            span,
                        };
                        proof {
                            lemma_push_error(errors@, e);
                        }
                        errors.push(e);
                    }
                    let ghost call0 = call;
                    let CallParts { callee, args, ty: call_ty, span } = call;
                    let mut callee = callee;
                    callee.ty = ty;
                    assert(callee@.kind == call0.callee@.kind);
                    assert(callee@.span == call0.callee@.span);
                    finish(
                        strict,
                        unsafe_context,
                        errors,
                        HirExpr { ty: call_ty, kind: HirExprKind::Call(Box::new(callee), args), span },
                    )
                },
                _ => give_up(strict, unsafe_context, errors, call),
            },
            ValueCallStage::Candidates { call, ty } => match answer {
                ValueCallAnswer::Candidates(candidates) => (
                    ValueCallCheck {
                        strict,
                        unsafe_context,
                        errors,
                        stage: ValueCallStage::Selection { call, ty },
                    },
                    ValueCallRequest::SelectCallable(candidates),
                ),
                _ => give_up(strict, unsafe_context, errors, call),
            },
            ValueCallStage::Selection { call, ty } => match answer {
                ValueCallAnswer::Selection(Ok(Some(selected))) => on_selected(
                    strict,
                    unsafe_context,
                    errors,
                    call,
                    selected,
                    Ghost(s),
                ),
                ValueCallAnswer::Selection(Ok(None)) => {
                    if !strict {
                        return give_up(strict, unsafe_context, errors, call);
                    }
                    (
                        ValueCallCheck {
                            strict,
                            unsafe_context,
                            errors,
                            stage: ValueCallStage::NotCallable(call),
                        },
                        ValueCallRequest::DisplayType(ty),
                    )
                },
                ValueCallAnswer::Selection(Err(e)) => {
                    if !strict {
                        return give_up(strict, unsafe_context, errors, call);
                    }
                    (
                        ValueCallCheck {
                            strict,
                            unsafe_context,
                            errors,
                            stage: ValueCallStage::SelectionFailed(call),
                        },
                        ValueCallRequest::DisplaySelectionError(e),
                    )
                },
                _ => give_up(strict, unsafe_context, errors, call),
            },
            ValueCallStage::NotCallable(call) => match answer {
                ValueCallAnswer::Text(rendered) => {
                    let mut message = "value of type ".to_owned();
                    message.append(rendered.as_str());
                    message.append(" is not callable");
                    let span = call.span;
                    report(strict, unsafe_context, errors, call, message, span)
                },
                _ => give_up(strict, unsafe_context, errors, call),
            },
            ValueCallStage::SelectionFailed(call) => match answer {
                ValueCallAnswer::Text(rendered) => {
                    let span = call.span;
                    report(strict, unsafe_context, errors, call, rendered, span)
                },
                _ => give_up(strict, unsafe_context, errors, call),
            },
            ValueCallStage::FreshVariables { call, selected, packed, subst, next } => match answer {
                ValueCallAnswer::Type(variable) => {
                    let params = member_params(&selected);
                    let count = params.len();
                    proof {
                        assert(next < count);
                    }
                    let id = params[next].id;
                    let mut subst = subst;
                    subst.insert(id, variable);
                    seed(
                        strict,
                        unsafe_context,
                        errors,
                        call,
                        selected,
                        packed,
                        subst,
                        next + 1,
                        Ghost(s),
                    )
                },
                _ => give_up(strict, unsafe_context, errors, call),
            },
            ValueCallStage::ArgumentUnified { call, selected, packed, subst } => match answer {
                ValueCallAnswer::Unified(Ok(())) => {
                    let result = selected.return_type.substitute_generics(&subst);
                    let wanted = clone_type(&result);
                    let expected = clone_type(&call.ty);
                    (
                        ValueCallCheck {
                            strict,
                            unsafe_context,
                            errors,
                            stage: ValueCallStage::MemberResultUnified {
                                call,
                                selected,
                                packed,
                                subst,
                                result,
                            },
                        },
                        ValueCallRequest::Unify(wanted, expected),
                    )
                },
                ValueCallAnswer::Unified(Err(message)) => {
                    let span = packed.span;
                    report(strict, unsafe_context, errors, call, message, span)
                },
                _ => give_up(strict, unsafe_context, errors, call),
            },
            ValueCallStage::MemberResultUnified { call, selected, packed, subst, result } =>
                match answer {
                ValueCallAnswer::Unified(Ok(())) => {
                    let (name, self_receiver) = match &selected.function {
                        Some(f) => (f.name.clone(), f.self_receiver),
                        None => vstd::pervasive::unreached(),
                    };
                    (
                        ValueCallCheck {
                            strict,
                            unsafe_context,
                            errors,
                            stage: ValueCallStage::Completion { call, name, self_receiver, packed },
                        },
                        ValueCallRequest::Complete { selected, subst, result },
                    )
                },
                ValueCallAnswer::Unified(Err(message)) => {
                    let span = call.span;
                    report(strict, unsafe_context, errors, call, message, span)
                },
                _ => give_up(strict, unsafe_context, errors, call),
            },
            ValueCallStage::Completion { call, name, self_receiver, packed } => match answer {
                ValueCallAnswer::Completed { target, receiver, result_ty } => {
                    let args = vec![packed];
                    proof {
                        assert(view_hirs(args@) =~= seq![view_hir(args@[0])]);
                    }
                    finish(
                        strict,
                        unsafe_context,
                        errors,
                        HirExpr {
                            ty: result_ty,
                            kind: HirExprKind::MethodCall(
                                Box::new(receiver),
                                name,
                                args,
                                self_receiver,
                                Some(target),
                            ),
                            span: call.span,
                        },
                    )
                },
                _ => give_up(strict, unsafe_context, errors, call),
            },
            ValueCallStage::Finished => vstd::pervasive::unreached(),
        }
    }
}

} // verus!
