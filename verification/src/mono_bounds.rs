use vstd::prelude::*;
use crate::bindings::{is_protocol_trait, is_protocol_trait_exec};
use crate::callable::{
    callable_args_type, spec_callable_args_type, strip_references, strip_references_exec,
    CallableProtocol,
};
use crate::hir::{ParamBounds, TraitBound};
use crate::ids::GenericParamId;
use crate::types::{clone_type, view_type, SpecType, Type};

verus! {

// ---------------------------------------------------------------------------
// Generic arguments a monomorphized function learns from its callable bounds.
//
// For each bounded generic parameter that the substitution already binds to
// a function value (seen through references), the arguments of its
// callable-protocol bounds are matched against the value's packed parameters
// and its result. The monomorphizer answers whether a parameter is bound,
// what it is bound to, and performs each match on its own substitution.
// ---------------------------------------------------------------------------

/// Where an inference stands.
#[derive(Debug)]
pub enum NativeBoundStage {
    /// Waits to learn whether the subject at `index` is bound.
    Bound { index: usize },
    /// Waits for the type bound to the subject at `index`.
    Actual { index: usize },
    /// Waits for the matches the subject at `index` asked for.
    Extracted { index: usize },
    Finished,
}

/// An inference over a function's bounded generic parameters.
#[derive(Debug)]
pub struct NativeBoundInference {
    /// The function's bounds, subject by subject.
    pub generic_bounds: Vec<ParamBounds>,
    /// The callable protocols of the language.
    pub protocols: Vec<CallableProtocol>,
    pub stage: NativeBoundStage,
}

/// Work the monomorphizer performs for an inference.
#[derive(Debug)]
pub enum NativeBoundRequest {
    /// Whether the substitution binds the parameter; answered by `Bound`.
    IsBound(GenericParamId),
    /// The type the substitution gives the parameter; answered by `Type`.
    Apply(GenericParamId),
    /// Match each pattern against its type, in order, binding the generic
    /// parameters the pattern mentions; answered by `Extracted`.
    Extract(Vec<(Type, Type)>),
    /// The inference is over.
    Done,
}

/// What the monomorphizer answers.
#[derive(Debug)]
pub enum NativeBoundAnswer {
    Bound(bool),
    Type(Type),
    Extracted,
}

/// For a function value with packed parameters `packed` and result `ret`:
/// each callable-protocol bound with two arguments, in order, matches its
/// first argument against `packed` and its second against `ret`.
pub open spec fn protocol_matches(
    bounds: Seq<TraitBound>,
    packed: SpecType,
    ret: SpecType,
    protocols: Seq<CallableProtocol>,
) -> Seq<(SpecType, SpecType)>
    decreases bounds.len(),
{
    if bounds.len() == 0 {
        Seq::empty()
    } else {
        let before = protocol_matches(bounds.drop_last(), packed, ret, protocols);
        let b = bounds.last();
        if b.type_args@.len() == 2 && is_protocol_trait(protocols, b.trait_id) {
            before + seq![(view_type(b.type_args@[0]), packed), (view_type(b.type_args@[1]), ret)]
        } else {
            before
        }
    }
}

/// The matches a subject bound to `actual` asks for: none unless `actual`
/// is a function value.
pub open spec fn native_matches(bounds: Seq<TraitBound>, actual: SpecType, protocols: Seq<CallableProtocol>) -> Seq<
    (SpecType, SpecType),
> {
    match strip_references(actual) {
        SpecType::Function { params, ret, .. } => protocol_matches(
            bounds,
            spec_callable_args_type(params),
            *ret,
            protocols,
        ),
        _ => Seq::empty(),
    }
}

pub open spec fn view_type_pairs(ps: Seq<(Type, Type)>) -> Seq<(SpecType, SpecType)> {
    ps.map_values(|p: (Type, Type)| (view_type(p.0), view_type(p.1)))
}

/// The inference goes on with the subject at `from`, or is over.
pub open spec fn asks_from(s: NativeBoundInference, t: NativeBoundInference, r: NativeBoundRequest, from: int) -> bool {
    if from < s.generic_bounds@.len() {
        &&& t.stage == NativeBoundStage::Bound { index: from as usize }
        &&& r == NativeBoundRequest::IsBound(s.generic_bounds@[from].param)
    } else {
        &&& t.stage is Finished
        &&& r is Done
    }
}

/// How an inference goes on from `s` with the answer `a`: to `t`, asking
/// `r`. An answer of another sort than the stage waits for ends it.
pub open spec fn native_bound_transition(
    s: NativeBoundInference,
    a: NativeBoundAnswer,
    t: NativeBoundInference,
    r: NativeBoundRequest,
) -> bool {
    match s.stage {
        NativeBoundStage::Bound { index } => match a {
            NativeBoundAnswer::Bound(true) => {
                &&& t.stage == NativeBoundStage::Actual { index }
                &&& r == NativeBoundRequest::Apply(s.generic_bounds@[index as int].param)
            },
            NativeBoundAnswer::Bound(false) => asks_from(s, t, r, index + 1),
            _ => t.stage is Finished && r is Done,
        },
        NativeBoundStage::Actual { index } => match a {
            NativeBoundAnswer::Type(actual) => {
                let matches = native_matches(
                    s.generic_bounds@[index as int].bounds@,
                    actual@,
                    s.protocols@,
                );
                if matches.len() == 0 {
                    asks_from(s, t, r, index + 1)
                } else {
                    &&& t.stage == NativeBoundStage::Extracted { index }
                    &&& r matches NativeBoundRequest::Extract(ps)
                    &&& view_type_pairs(ps@) == matches
                }
            },
            _ => t.stage is Finished && r is Done,
        },
        NativeBoundStage::Extracted { index } => match a {
            NativeBoundAnswer::Extracted => asks_from(s, t, r, index + 1),
            _ => t.stage is Finished && r is Done,
        },
        NativeBoundStage::Finished => false,
    }
}

proof fn lemma_view_type_pairs_push(ps: Seq<(Type, Type)>, x: (Type, Type))
    ensures
        view_type_pairs(ps.push(x)) == view_type_pairs(ps).push((view_type(x.0), view_type(x.1))),
{
    assert(view_type_pairs(ps.push(x)) =~= view_type_pairs(ps).push((view_type(x.0), view_type(x.1))));
}

fn protocol_matches_exec(
    bounds: &Vec<TraitBound>,
    packed: &Type,
    ret: &Type,
    protocols: &Vec<CallableProtocol>,
) -> (r: Vec<(Type, Type)>)
    ensures
        view_type_pairs(r@) == protocol_matches(bounds@, packed@, ret@, protocols@),
{
    let mut out: Vec<(Type, Type)> = Vec::new();
    let mut i: usize = 0;
    while i < bounds.len()
        invariant
            i <= bounds@.len(),
            view_type_pairs(out@) == protocol_matches(bounds@.take(i as int), packed@, ret@, protocols@),
        decreases bounds.len() - i,
    {
        assert(bounds@.take(i + 1).drop_last() =~= bounds@.take(i as int));
        let b = &bounds[i];
        if b.type_args.len() == 2 && is_protocol_trait_exec(protocols, b.trait_id) {
            let first = (clone_type(&b.type_args[0]), clone_type(packed));
            let second = (clone_type(&b.type_args[1]), clone_type(ret));
            proof {
                lemma_view_type_pairs_push(out@, first);
                lemma_view_type_pairs_push(out@.push(first), second);
            }
            out.push(first);
            out.push(second);
            assert(view_type_pairs(out@) =~= protocol_matches(bounds@.take(i as int), packed@, ret@, protocols@)
                + seq![(view_type(b.type_args@[0]), packed@), (view_type(b.type_args@[1]), ret@)]);
        }
        i = i + 1;
    }
    assert(bounds@.take(bounds@.len() as int) =~= bounds@);
    out
}

fn native_matches_exec(bounds: &Vec<TraitBound>, actual: &Type, protocols: &Vec<CallableProtocol>) -> (r: Vec<
    (Type, Type),
>)
    ensures
        view_type_pairs(r@) == native_matches(bounds@, actual@, protocols@),
{
    match strip_references_exec(actual) {
        Type::Function { params, ret, .. } => {
            let packed = callable_args_type(params);
            protocol_matches_exec(bounds, &packed, ret, protocols)
        },
        _ => {
            let out: Vec<(Type, Type)> = Vec::new();
            assert(view_type_pairs(out@) =~= Seq::empty());
            out
        },
    }
}

fn ask_from(generic_bounds: Vec<ParamBounds>, protocols: Vec<CallableProtocol>, from: usize) -> (r: (
    NativeBoundInference,
    NativeBoundRequest,
))
    requires
        from <= generic_bounds@.len(),
    ensures
        r.0.generic_bounds == generic_bounds,
        r.0.protocols == protocols,
        r.0.inv(),
        asks_from(r.0, r.0, r.1, from as int),
{
    if from < generic_bounds.len() {
        let param = generic_bounds[from].param;
        (
            NativeBoundInference {
                generic_bounds,
                protocols,
                stage: NativeBoundStage::Bound { index: from },
            },
            NativeBoundRequest::IsBound(param),
        )
    } else {
        (
            NativeBoundInference { generic_bounds, protocols, stage: NativeBoundStage::Finished },
            NativeBoundRequest::Done,
        )
    }
}

fn ask_next(generic_bounds: Vec<ParamBounds>, protocols: Vec<CallableProtocol>, index: usize) -> (r: (
    NativeBoundInference,
    NativeBoundRequest,
))
    requires
        index < generic_bounds@.len(),
    ensures
        r.0.generic_bounds == generic_bounds,
        r.0.protocols == protocols,
        r.0.inv(),
        asks_from(r.0, r.0, r.1, index + 1),
{
    let count = generic_bounds.len();
    proof {
        assert(index < count);
    }
    ask_from(generic_bounds, protocols, index + 1)
}

impl NativeBoundInference {
    /// A waiting stage names a subject of the function.
    pub open spec fn inv(&self) -> bool {
        match self.stage {
            NativeBoundStage::Bound { index } => index < self.generic_bounds@.len(),
            NativeBoundStage::Actual { index } => index < self.generic_bounds@.len(),
            NativeBoundStage::Extracted { index } => index < self.generic_bounds@.len(),
            NativeBoundStage::Finished => true,
        }
    }

    /// Starts with the first bounded parameter, if there is one.
    pub fn start(generic_bounds: Vec<ParamBounds>, protocols: Vec<CallableProtocol>) -> (r: (
        NativeBoundInference,
        NativeBoundRequest,
    ))
        ensures
            r.0.generic_bounds == generic_bounds,
            r.0.protocols == protocols,
            r.0.inv(),
            asks_from(r.0, r.0, r.1, 0),
    {
        ask_from(generic_bounds, protocols, 0)
    }

    /// Takes the answer to the last request and goes on, as
    /// [`native_bound_transition`] says.
    pub fn step(self, answer: NativeBoundAnswer) -> (r: (NativeBoundInference, NativeBoundRequest))
        requires
            self.inv(),
            !(self.stage is Finished),
        ensures
            r.0.generic_bounds == self.generic_bounds,
            r.0.protocols == self.protocols,
            r.0.inv(),
            native_bound_transition(self, answer, r.0, r.1),
    {
        let NativeBoundInference { generic_bounds, protocols, stage } = self;
        let done = NativeBoundStage::Finished;
        match stage {
            NativeBoundStage::Bound { index } => match answer {
                NativeBoundAnswer::Bound(true) => {
                    let param = generic_bounds[index].param;
                    (
                        NativeBoundInference {
                            generic_bounds,
                            protocols,
                            stage: NativeBoundStage::Actual { index },
                        },
                        NativeBoundRequest::Apply(param),
                    )
                },
                NativeBoundAnswer::Bound(false) => ask_next(generic_bounds, protocols, index),
                _ => (NativeBoundInference { generic_bounds, protocols, stage: done }, NativeBoundRequest::Done),
            },
            NativeBoundStage::Actual { index } => match answer {
                NativeBoundAnswer::Type(actual) => {
                    let matches = native_matches_exec(&generic_bounds[index].bounds, &actual, &protocols);
                    if matches.len() == 0 {
                        return ask_next(generic_bounds, protocols, index);
                    }
                    (
                        NativeBoundInference {
                            generic_bounds,
                            protocols,
                            stage: NativeBoundStage::Extracted { index },
                        },
                        NativeBoundRequest::Extract(matches),
                    )
                },
                _ => (NativeBoundInference { generic_bounds, protocols, stage: done }, NativeBoundRequest::Done),
            },
            NativeBoundStage::Extracted { index } => match answer {
                NativeBoundAnswer::Extracted => ask_next(generic_bounds, protocols, index),
                _ => (NativeBoundInference { generic_bounds, protocols, stage: done }, NativeBoundRequest::Done),
            },
            NativeBoundStage::Finished => vstd::pervasive::unreached(),
        }
    }
}

} // verus!
