use vstd::prelude::*;
use crate::bindings::ResolveError;
use crate::callable::{
    is_place, pack_call_arguments, refresh_autoref_mut, spec_pack_arguments, ReceiverCandidate,
    SelectedMethod, SelectionDiagnostic,
};
use crate::hir::{view_call_target, HirMethodCallTarget, TraitBound};
use crate::hir_expr::{view_hirs, HirExpr, HirExprKind, SpecHirExpr, SpecHirKind, Span};
use crate::types::{clone_type, SpecType, Type};
use crate::value_call::unsafe_callable_message;

verus! {

// ---------------------------------------------------------------------------
// Finding the callable member for a receiver.
//
// A receiver whose type is an inference variable without bounds has no
// callable member yet. Otherwise its receiver candidates (each with its type
// resolved) are refreshed for mutable borrowing and handed to selection; a
// selection failure is reported at the receiver.
// ---------------------------------------------------------------------------

/// Where a search stands.
#[derive(Debug)]
pub enum CandidateStage {
    /// Waits for the receiver's type as inference resolves it.
    ReceiverType { receiver: HirExpr, member_name: Option<String> },
    /// The receiver's type is an inference variable: waits for its bounds.
    VariableBounds { receiver: HirExpr, member_name: Option<String> },
    /// Waits for the receiver candidates, each with whether its expression
    /// is a mutable place.
    Candidates { span: Span, member_name: Option<String> },
    /// Waits for the selected member.
    Selection(Span),
    /// Waits for a selection failure, rendered for a message.
    Failure(Span),
    Finished,
}

/// A search for the callable member of one receiver, under the member name
/// asked for, if any.
#[derive(Debug)]
pub struct CandidateSearch {
    pub stage: CandidateStage,
}

/// Work type inference performs for a search.
#[derive(Debug)]
pub enum CandidateRequest {
    /// Resolve a type; answered by `Type`.
    ResolveType(Type),
    /// The bounds of an inference variable; answered by `Bounds`.
    VariableBounds(u32),
    /// The receiver candidates of an expression, with their types resolved
    /// (projections included); answered by `Candidates`.
    ReceiverCandidates(HirExpr),
    /// Select the callable member among the candidates; answered by `Selection`.
    SelectCallable { candidates: Vec<ReceiverCandidate>, member_name: Option<String> },
    /// Render a selection failure; answered by `Text`.
    DisplaySelectionError(SelectionDiagnostic),
    /// The search is over: the member found, and the error to report.
    Done { selected: Option<SelectedMethod>, error: Option<ResolveError> },
}

/// What type inference answers.
#[derive(Debug)]
pub enum CandidateAnswer {
    Type(Type),
    Bounds(Vec<TraitBound>),
    Candidates(Vec<(ReceiverCandidate, bool)>),
    Selection(Result<Option<SelectedMethod>, SelectionDiagnostic>),
    Text(String),
}

/// Whether a candidate that was `before` may now be borrowed mutably, being
/// a mutable place or not: it may if it could, if it is a mutable place, if
/// its type is a mutable reference, or if it is a temporary.
pub open spec fn refreshed(before: ReceiverCandidate, mutable_place: bool, after: ReceiverCandidate) -> bool {
    &&& after.expr == before.expr
    &&& after.can_autoref_mut == (before.can_autoref_mut || mutable_place
        || before.expr.ty@ matches SpecType::Reference { mutable: true, .. }
        || !is_place(before.expr.kind))
}

/// The search ends with nothing found and nothing reported.
pub open spec fn finds_nothing(t: CandidateSearch, r: CandidateRequest) -> bool {
    &&& t.stage is Finished
    &&& r matches CandidateRequest::Done { selected: None, error: None }
}

/// How a search goes on from `s` with the answer `a`: to `t`, asking `r`.
/// An answer of another sort than the stage waits for ends it with nothing found.
pub open spec fn candidate_transition(s: CandidateSearch, a: CandidateAnswer, t: CandidateSearch, r: CandidateRequest) -> bool {
    match s.stage {
        CandidateStage::ReceiverType { receiver, member_name } => match a {
            CandidateAnswer::Type(Type::TypeVar(id)) => {
                &&& t.stage == CandidateStage::VariableBounds { receiver, member_name }
                &&& r == CandidateRequest::VariableBounds(id)
            },
            CandidateAnswer::Type(_) => {
                &&& t.stage == CandidateStage::Candidates { span: receiver.span, member_name }
                &&& r == CandidateRequest::ReceiverCandidates(receiver)
            },
            _ => finds_nothing(t, r),
        },
        CandidateStage::VariableBounds { receiver, member_name } => match a {
            CandidateAnswer::Bounds(bounds) => if bounds@.len() == 0 {
                finds_nothing(t, r)
            } else {
                &&& t.stage == CandidateStage::Candidates { span: receiver.span, member_name }
                &&& r == CandidateRequest::ReceiverCandidates(receiver)
            },
            _ => finds_nothing(t, r),
        },
        CandidateStage::Candidates { span, member_name } => match a {
            CandidateAnswer::Candidates(found) => {
                &&& t.stage == CandidateStage::Selection(span)
                &&& r matches CandidateRequest::SelectCallable { candidates, member_name: name }
                &&& name == member_name
                &&& candidates@.len() == found@.len()
                &&& forall|i: int|
                    0 <= i < found@.len() ==> refreshed(
                        #[trigger] found@[i].0,
                        found@[i].1,
                        candidates@[i],
                    )
            },
            _ => finds_nothing(t, r),
        },
        CandidateStage::Selection(span) => match a {
            CandidateAnswer::Selection(Ok(selected)) => {
                &&& t.stage is Finished
                &&& r == CandidateRequest::Done { selected, error: None }
            },
            CandidateAnswer::Selection(Err(e)) => {
                &&& t.stage == CandidateStage::Failure(span)
                &&& r == CandidateRequest::DisplaySelectionError(e)
            },
            _ => finds_nothing(t, r),
        },
        CandidateStage::Failure(span) => match a {
            CandidateAnswer::Text(message) => {
                &&& t.stage is Finished
                &&& r == CandidateRequest::Done {
                    selected: None,
                    error: Some(ResolveError { message, span }),
                }
            },
            _ => finds_nothing(t, r),
        },
        CandidateStage::Finished => false,
    }
}

fn refresh_all(found: Vec<(ReceiverCandidate, bool)>) -> (r: Vec<ReceiverCandidate>)
    ensures
        r@.len() == found@.len(),
        forall|i: int| 0 <= i < found@.len() ==> refreshed(#[trigger] found@[i].0, found@[i].1, r@[i]),
{
    let ghost given = found@;
    let mut found = found;
    let mut out: Vec<ReceiverCandidate> = Vec::new();
    assert(given.skip(0) =~= given);
    while found.len() > 0
        invariant
            found@.len() + out@.len() == given.len(),
            found@ == given.skip(out@.len() as int),
            forall|j: int| 0 <= j < out@.len() ==> refreshed(#[trigger] given[j].0, given[j].1, out@[j]),
        decreases found.len(),
    {
        let ghost before = found@;
        let (candidate, mutable_place) = found.remove(0);
        assert(before[0] == given[out@.len() as int]);
        assert(found@ =~= given.skip(out@.len() as int + 1));
        let mut candidate = candidate;
        refresh_autoref_mut(&mut candidate, mutable_place);
        out.push(candidate);
    }
    out
}

impl CandidateSearch {
    /// Starts the search for `receiver`'s callable member, named
    /// `member_name` if given, by asking for the receiver's type.
    pub fn start(receiver: HirExpr, member_name: Option<String>) -> (r: (CandidateSearch, CandidateRequest))
        ensures
            r.1 matches CandidateRequest::ResolveType(t) && t@ == receiver.ty@,
            r.0.stage == (CandidateStage::ReceiverType { receiver, member_name }),
    {
        let ty = clone_type(&receiver.ty);
        (
            CandidateSearch { stage: CandidateStage::ReceiverType { receiver, member_name } },
            CandidateRequest::ResolveType(ty),
        )
    }

    /// Takes the answer to the last request and goes on, as
    /// [`candidate_transition`] says.
    pub fn step(self, answer: CandidateAnswer) -> (r: (CandidateSearch, CandidateRequest))
        requires
            !(self.stage is Finished),
        ensures
            candidate_transition(self, answer, r.0, r.1),
    {
        let over = CandidateSearch { stage: CandidateStage::Finished };
        let nothing = CandidateRequest::Done { selected: None, error: None };
        match self.stage {
            CandidateStage::ReceiverType { receiver, member_name } => match answer {
                CandidateAnswer::Type(Type::TypeVar(id)) => (
                    CandidateSearch { stage: CandidateStage::VariableBounds { receiver, member_name } },
                    CandidateRequest::VariableBounds(id),
                ),
                CandidateAnswer::Type(_) => {
                    let span = receiver.span;
                    (
                        CandidateSearch { stage: CandidateStage::Candidates { span, member_name } },
                        CandidateRequest::ReceiverCandidates(receiver),
                    )
                },
                _ => (over, nothing),
            },
            CandidateStage::VariableBounds { receiver, member_name } => match answer {
                CandidateAnswer::Bounds(bounds) => {
                    if bounds.len() == 0 {
                        return (over, nothing);
                    }
                    let span = receiver.span;
                    (
                        CandidateSearch { stage: CandidateStage::Candidates { span, member_name } },
                        CandidateRequest::ReceiverCandidates(receiver),
                    )
                },
                _ => (over, nothing),
            },
            CandidateStage::Candidates { span, member_name } => match answer {
                CandidateAnswer::Candidates(found) => {
                    let candidates = refresh_all(found);
                    (
                        CandidateSearch { stage: CandidateStage::Selection(span) },
                        CandidateRequest::SelectCallable { candidates, member_name },
                    )
                },
                _ => (over, nothing),
            },
            CandidateStage::Selection(span) => match answer {
                CandidateAnswer::Selection(Ok(selected)) => (
                    over,
                    CandidateRequest::Done { selected, error: None },
                ),
                CandidateAnswer::Selection(Err(e)) => (
                    CandidateSearch { stage: CandidateStage::Failure(span) },
                    CandidateRequest::DisplaySelectionError(e),
                ),
                _ => (over, nothing),
            },
            CandidateStage::Failure(span) => match answer {
                CandidateAnswer::Text(message) => (
                    over,
                    CandidateRequest::Done {
                        selected: None,
                        error: Some(ResolveError { message, span }),
                    },
                ),
                _ => (over, nothing),
            },
            CandidateStage::Finished => vstd::pervasive::unreached(),
        }
    }
}

// ---------------------------------------------------------------------------
// Lowering a call through a selected callable member.
//
// The arguments are packed into one (unit, the argument itself, or a tuple).
// Type inference adjusts the member's receiver and computes the method,
// the call's type, arguments and target; a call it cannot type, or a call of
// an unsafe member outside an unsafe context, lowers to an error expression.
// ---------------------------------------------------------------------------

/// A call through a selected member, ready for type inference.
#[derive(Debug)]
pub struct CallableCall {
    pub selected: SelectedMethod,
    /// The packed arguments, as the single argument of the call.
    pub args: Vec<HirExpr>,
    /// Where the call stands: the receiver's span.
    pub span: Span,
}

/// What type inference computes for such a call.
#[derive(Debug)]
pub struct MethodCallTypes {
    pub name: String,
    pub is_unsafe: bool,
    pub self_receiver: bool,
    /// The type of the call.
    pub ty: Type,
    pub args: Vec<HirExpr>,
    pub target: HirMethodCallTarget,
}

/// A lowered call.
#[derive(Debug)]
pub enum LoweredCall {
    Call(HirExpr),
    /// An error expression stands at `span`, with the error to report, if any.
    Failed { span: Span, error: Option<ResolveError> },
}

/// Packs the arguments of a call through `selected`.
pub fn lower_callable_call(selected: SelectedMethod, args: Vec<HirExpr>) -> (r: CallableCall)
    ensures
        r.selected == selected,
        r.span == selected.receiver.span,
        r.args@.len() == 1,
        r.args@[0]@ == spec_pack_arguments(view_hirs(args@), selected.receiver.span),
{
    let span = selected.receiver.span;
    let packed = pack_call_arguments(args, span);
    CallableCall { selected, args: vec![packed], span }
}

/// The lowered call, from the adjusted receiver and what type inference
/// computed for the call (nothing if it could not type it).
pub fn finish_callable_call(
    span: Span,
    receiver: HirExpr,
    types: Option<MethodCallTypes>,
    unsafe_context: bool,
) -> (r: LoweredCall)
    ensures
        types is None ==> r == (LoweredCall::Failed { span, error: None }),
        types matches Some(m) ==> if m.is_unsafe && !unsafe_context {
            &&& r matches LoweredCall::Failed { span: at, error: Some(e) }
            &&& at == span && e.span == span && e.message@ == unsafe_callable_message()
        } else {
            &&& r matches LoweredCall::Call(e)
            &&& e@ == SpecHirExpr {
                ty: m.ty@,
                kind: SpecHirKind::MethodCall {
                    receiver: Box::new(receiver@),
                    name: m.name@,
                    args: view_hirs(m.args@),
                    self_receiver: m.self_receiver,
                    call_target: Some(view_call_target(m.target)),
                },
                span,
            }
        },
{
    match types {
        None => LoweredCall::Failed { span, error: None },
        Some(m) => {
            if m.is_unsafe && !unsafe_context {
                let message = "Call to unsafe callable requires an unsafe block".to_owned();
                return LoweredCall::Failed { span, error: Some(ResolveError { message, span }) };
            }
            LoweredCall::Call(
                HirExpr {
                    ty: m.ty,
                    kind: HirExprKind::MethodCall(
                        Box::new(receiver),
                        m.name,
                        m.args,
                        m.self_receiver,
                        Some(m.target),
                    ),
                    span,
                },
            )
        },
    }
}

} // verus!
