use vstd::prelude::*;
use crate::bindings::{is_protocol_trait, is_protocol_trait_exec, MethodSignature};
use crate::callable::{CallableProtocol, SelectedMethod};
use crate::hir::{SpecTraitBound, TraitBound};
use crate::hir_expr::Span;
use crate::ids::GenericParamId;
use crate::subst::{subst_type, Substitution};
use crate::type_vars::{
    add_var, collect_vars, collect_vars_in, collected, lemma_collected_same, lemma_collected_trans,
    lookup_var, occurs, occurs_in, subst_vars, subst_vars_in, substitute_vars, substitute_vars_in,
    var_lookup, view_var_pairs,
};
use crate::types::{clone_type, view_types, SpecType, Type};

verus! {

// ---------------------------------------------------------------------------
// Fresh instances of a selected callable member's inferred parameters.
//
// When a callable member comes from an impl and its signature (the receiver
// aside) mentions inference variables bounded by a callable protocol, each
// call gets its own instances of them: every variable unresolved at a root is
// replaced by one fresh variable per root, every resolved one by its type
// under the owner's substitution, and the protocol bounds are carried over to
// the fresh variables. Type inference resolves variables, reads their
// bounds, makes fresh variables and records bounds; the decisions are taken
// here.
// ---------------------------------------------------------------------------

/// Where an instantiation stands.
#[derive(Debug)]
pub enum InstanceStage {
    /// Waits for the bounds of `vars`, the member's variables.
    Bounds { selected: SelectedMethod, vars: Vec<u32> },
    /// Waits for `all` (those variables and the ones their bounds mention) as
    /// inference resolves them.
    Resolved { selected: SelectedMethod, vars: Vec<u32>, bounds: Vec<Vec<TraitBound>>, all: Vec<u32> },
    /// Waits for one fresh variable for each root in `roots`.
    Fresh {
        selected: SelectedMethod,
        vars: Vec<u32>,
        bounds: Vec<Vec<TraitBound>>,
        all: Vec<u32>,
        resolved: Vec<Type>,
        roots: Vec<u32>,
    },
    /// Waits for the carried bounds to be recorded; `pairs` replaces variables.
    Recorded { selected: SelectedMethod, pairs: Vec<(u32, Type)> },
    Finished,
}

/// An instantiation of one selected member.
#[derive(Debug)]
pub struct CallableInstance {
    /// The callable protocols of the language.
    pub protocols: Vec<CallableProtocol>,
    pub stage: InstanceStage,
}

/// Work type inference performs for an instantiation.
#[derive(Debug)]
pub enum InstanceRequest {
    /// The bounds of each variable, in order; answered by `Bounds`.
    VariableBounds(Vec<u32>),
    /// Each variable as inference resolves it, in order; answered by `Types`.
    ResolveVariables(Vec<u32>),
    /// One fresh variable for each root, of the root's kind, at `span`;
    /// answered by `Types`.
    FreshVariables { roots: Vec<u32>, span: Span },
    /// Add each bound to its variable and record it as an obligation at
    /// `span` for `reason`; answered by `Recorded`.
    AddBounds { bounds: Vec<(u32, TraitBound)>, span: Span, reason: String },
    /// The instantiation is over: the member as it now stands.
    Done(SelectedMethod),
}

/// What type inference answers.
#[derive(Debug)]
pub enum InstanceAnswer {
    Bounds(Vec<Vec<TraitBound>>),
    Types(Vec<Type>),
    Recorded,
}

// ---------------------------------------------------------------------------
// What an instantiation computes.
// ---------------------------------------------------------------------------

/// The parameters of a signature other than its receiver.
pub open spec fn explicit_params(f: MethodSignature) -> Seq<SpecType> {
    if f.is_method && f.params@.len() > 0 {
        view_types(f.params@).skip(1)
    } else {
        view_types(f.params@)
    }
}

/// Whether `v` occurs in the member's explicit parameters or result.
pub open spec fn member_var(f: MethodSignature, v: u32) -> bool {
    occurs_in(explicit_params(f), v) || occurs(f.ret_type@, v)
}

/// Whether one of the bounds is a callable-protocol bound.
pub open spec fn has_callable_bound(bounds: Seq<Vec<TraitBound>>, protocols: Seq<CallableProtocol>) -> bool {
    exists|k: int, j: int|
        0 <= k < bounds.len() && 0 <= j < bounds[k]@.len() && is_protocol_trait(
            protocols,
            #[trigger] bounds[k]@[j].trait_id,
        )
}

/// Whether `v` occurs in an argument of one of the bounds.
pub open spec fn bound_var(bounds: Seq<Vec<TraitBound>>, v: u32) -> bool {
    exists|k: int, j: int|
        0 <= k < bounds.len() && 0 <= j < bounds[k]@.len() && occurs_in(
            view_types(#[trigger] bounds[k]@[j].type_args@),
            v,
        )
}

/// Each root paired with its fresh variable.
pub open spec fn root_pairs(roots: Seq<u32>, fresh: Seq<SpecType>) -> Seq<(u32, SpecType)> {
    Seq::new(roots.len(), |j: int| (roots[j], fresh[j]))
}

/// What replaces a variable that resolved to `resolved`: the fresh variable
/// of its root if it is unresolved, else its type under the owner's substitution.
pub open spec fn replacement(resolved: SpecType, roots: Seq<(u32, SpecType)>, owner: Map<GenericParamId, SpecType>) -> SpecType {
    match resolved {
        SpecType::TypeVar(r) => match var_lookup(roots, r) {
            Some(t) => t,
            None => resolved,
        },
        _ => subst_type(resolved, owner),
    }
}

/// The replacements of all variables; the roots' own come first and win.
pub open spec fn instance_pairs(
    all: Seq<u32>,
    resolved: Seq<SpecType>,
    roots: Seq<u32>,
    fresh: Seq<SpecType>,
    owner: Map<GenericParamId, SpecType>,
) -> Seq<(u32, SpecType)> {
    let rp = root_pairs(roots, fresh);
    rp + Seq::new(all.len(), |i: int| (all[i], replacement(resolved[i], rp, owner)))
}

/// A bound carried over: its arguments with variables replaced, then under
/// the owner's substitution.
pub open spec fn carried_bound(b: TraitBound, pairs: Seq<(u32, SpecType)>, owner: Map<GenericParamId, SpecType>) -> SpecTraitBound {
    SpecTraitBound {
        trait_id: b.trait_id,
        type_args: view_types(b.type_args@).map_values(|t: SpecType| subst_type(subst_vars(t, pairs), owner)),
    }
}

/// The bounds of the first `n` variables, each carried to the fresh variable
/// that replaces it (a variable replaced by anything else carries none).
pub open spec fn carried_bounds(
    vars: Seq<u32>,
    bounds: Seq<Vec<TraitBound>>,
    pairs: Seq<(u32, SpecType)>,
    owner: Map<GenericParamId, SpecType>,
    n: int,
) -> Seq<(u32, SpecTraitBound)>
    decreases n,
{
    if n <= 0 {
        Seq::empty()
    } else {
        carried_bounds(vars, bounds, pairs, owner, n - 1) + match var_lookup(pairs, vars[n - 1]) {
            Some(SpecType::TypeVar(instance)) => bounds[n - 1]@.map_values(
                |b: TraitBound| (instance, carried_bound(b, pairs, owner)),
            ),
            _ => Seq::empty(),
        }
    }
}

pub open spec fn view_carried(bs: Seq<(u32, TraitBound)>) -> Seq<(u32, SpecTraitBound)> {
    bs.map_values(|b: (u32, TraitBound)| (b.0, b.1@))
}

pub open spec fn carried_reason() -> Seq<char> {
    "inferred method callable argument"@
}

/// `after` is `before` with the variables of its signature and of its
/// substituted parameters and result replaced as `pairs` says.
pub open spec fn instantiated(before: SelectedMethod, after: SelectedMethod, pairs: Seq<(u32, SpecType)>) -> bool {
    &&& after.target == before.target
    &&& after.impl_def == before.impl_def
    &&& after.pending_impl_bounds == before.pending_impl_bounds
    &&& after.owner_substitution == before.owner_substitution
    &&& after.receiver == before.receiver
    &&& view_types(after.substituted_params@) == subst_vars_in(view_types(before.substituted_params@), pairs)
    &&& after.return_type@ == subst_vars(before.return_type@, pairs)
    &&& match (before.function, after.function) {
        (Some(f), Some(g)) => {
            &&& g.id == f.id && g.name == f.name && g.is_unsafe == f.is_unsafe && g.self_receiver
                == f.self_receiver && g.is_method == f.is_method
            &&& g.generic_params == f.generic_params && g.generic_bounds == f.generic_bounds
            &&& view_types(g.params@) == subst_vars_in(view_types(f.params@), pairs)
            &&& g.ret_type@ == subst_vars(f.ret_type@, pairs)
        },
        (None, None) => true,
        _ => false,
    }
}

/// The instantiation is over with the member `selected`.
pub open spec fn ends_with(t: CallableInstance, r: InstanceRequest, selected: SelectedMethod) -> bool {
    &&& t.stage is Finished
    &&& r == InstanceRequest::Done(selected)
}

/// How an instantiation goes on from `s` with the answer `a`: to `t`, asking
/// `r`. An answer of another sort, or of another length, than the stage
/// waits for ends it with the member unchanged.
pub open spec fn instance_transition(s: CallableInstance, a: InstanceAnswer, t: CallableInstance, r: InstanceRequest) -> bool {
    match s.stage {
        InstanceStage::Bounds { selected, vars } => match a {
            InstanceAnswer::Bounds(bs) => if bs@.len() != vars@.len() || !has_callable_bound(
                bs@,
                s.protocols@,
            ) {
                ends_with(t, r, selected)
            } else {
                &&& t.stage matches InstanceStage::Resolved { selected: sel, vars: vs, bounds, all }
                &&& sel == selected && vs == vars && bounds == bs
                &&& collected(vars@, all@, |v: u32| bound_var(bs@, v))
                &&& r matches InstanceRequest::ResolveVariables(asked)
                &&& asked@ == all@
            },
            _ => ends_with(t, r, selected),
        },
        InstanceStage::Resolved { selected, vars, bounds, all } => match a {
            InstanceAnswer::Types(ts) => if ts@.len() != all@.len() {
                ends_with(t, r, selected)
            } else {
                &&& t.stage matches InstanceStage::Fresh {
                    selected: sel,
                    vars: vs,
                    bounds: bs,
                    all: al,
                    resolved,
                    roots,
                }
                &&& sel == selected && vs == vars && bs == bounds && al == all && resolved == ts
                &&& collected(
                    Seq::empty(),
                    roots@,
                    |x: u32| exists|i: int| 0 <= i < ts@.len() && ts@[i]@ == SpecType::TypeVar(x),
                )
                &&& r matches InstanceRequest::FreshVariables { roots: asked, span }
                &&& asked@ == roots@ && span == selected.receiver.span
            },
            _ => ends_with(t, r, selected),
        },
        InstanceStage::Fresh { selected, vars, bounds, all, resolved, roots } => match a {
            InstanceAnswer::Types(fresh) => if fresh@.len() != roots@.len() {
                ends_with(t, r, selected)
            } else {
                let pairs = instance_pairs(
                    all@,
                    view_types(resolved@),
                    roots@,
                    view_types(fresh@),
                    selected.owner_substitution@,
                );
                &&& t.stage matches InstanceStage::Recorded { selected: sel, pairs: ps }
                &&& sel == selected && view_var_pairs(ps@) == pairs
                &&& r matches InstanceRequest::AddBounds { bounds: carried, span, reason }
                &&& view_carried(carried@) == carried_bounds(
                    vars@,
                    bounds@,
                    pairs,
                    selected.owner_substitution@,
                    vars@.len() as int,
                )
                &&& span == selected.receiver.span
                &&& reason@ == carried_reason()
            },
            _ => ends_with(t, r, selected),
        },
        InstanceStage::Recorded { selected, pairs } => match a {
            InstanceAnswer::Recorded => {
                &&& t.stage is Finished
                &&& r matches InstanceRequest::Done(after)
                &&& instantiated(selected, after, view_var_pairs(pairs@))
            },
            _ => ends_with(t, r, selected),
        },
        InstanceStage::Finished => false,
    }
}

// ---------------------------------------------------------------------------
// The instantiation.
// ---------------------------------------------------------------------------

/// Whether `v` occurs in one of `ps[lo..hi]`.
spec fn occurs_between(ps: Seq<SpecType>, lo: int, hi: int, v: u32) -> bool {
    exists|j: int| lo <= j < hi && occurs(ps[j], v)
}

/// The variables of the member's explicit parameters and result.
fn member_vars(f: &MethodSignature) -> (r: Vec<u32>)
    ensures
        collected(Seq::empty(), r@, |v: u32| member_var(*f, v)),
{
    let mut out: Vec<u32> = Vec::new();
    let first: usize = if f.is_method && f.params.len() > 0 {
        1
    } else {
        0
    };
    let ghost ps = view_types(f.params@);
    assert(out@.subrange(0, 0) =~= out@);
    let mut i = first;
    while i < f.params.len()
        invariant
            first <= i <= f.params@.len(),
            ps == view_types(f.params@),
            collected(Seq::empty(), out@, |v: u32| occurs_between(ps, first as int, i as int, v)),
        decreases f.params.len() - i,
    {
        let ghost s = out@;
        collect_vars(&f.params[i], &mut out);
        proof {
            assert(ps[i as int] == f.params@[i as int]@);
            lemma_collected_trans(
                Seq::empty(),
                s,
                out@,
                |v: u32| occurs_between(ps, first as int, i as int, v),
                |v: u32| occurs(ps[i as int], v),
            );
            assert forall|v: u32|
                #[trigger] occurs_between(ps, first as int, i + 1, v) == (occurs_between(
                    ps,
                    first as int,
                    i as int,
                    v,
                ) || occurs(ps[i as int], v)) by {
                if occurs_between(ps, first as int, i + 1, v) {
                    let j = choose|j: int| first <= j < i + 1 && occurs(ps[j], v);
                    if j < i {
                        assert(occurs_between(ps, first as int, i as int, v));
                    }
                }
                if occurs_between(ps, first as int, i as int, v) {
                    let j = choose|j: int| first <= j < i && occurs(ps[j], v);
                    assert(first <= j < i + 1 && occurs(ps[j], v));
                }
                if occurs(ps[i as int], v) {
                    assert(first <= i < i + 1 && occurs(ps[i as int], v));
                }
            }
            lemma_collected_same(
                Seq::empty(),
                out@,
                |v: u32| occurs_between(ps, first as int, i as int, v) || occurs(ps[i as int], v),
                |v: u32| occurs_between(ps, first as int, i + 1, v),
            );
        }
        i = i + 1;
    }
    let ghost s = out@;
    collect_vars(&f.ret_type, &mut out);
    proof {
        lemma_collected_trans(
            Seq::empty(),
            s,
            out@,
            |v: u32| occurs_between(ps, first as int, ps.len() as int, v),
            |v: u32| occurs(f.ret_type@, v),
        );
        assert forall|v: u32|
            (occurs_between(ps, first as int, ps.len() as int, v) || occurs(f.ret_type@, v))
                == #[trigger] member_var(*f, v) by {
            let ep = explicit_params(*f);
            if occurs_between(ps, first as int, ps.len() as int, v) {
                let j = choose|j: int| first <= j < ps.len() && occurs(ps[j], v);
                assert(ep[j - first] == ps[j]);
            }
            if occurs_in(ep, v) {
                let j = choose|j: int| 0 <= j < ep.len() && occurs(ep[j], v);
                assert(ep[j] == ps[j + first]);
            }
        }
        lemma_collected_same(
            Seq::empty(),
            out@,
            |v: u32| occurs_between(ps, first as int, ps.len() as int, v) || occurs(f.ret_type@, v),
            |v: u32| member_var(*f, v),
        );
    }
    out
}

fn has_callable_bound_exec(bounds: &Vec<Vec<TraitBound>>, protocols: &Vec<CallableProtocol>) -> (r: bool)
    ensures
        r == has_callable_bound(bounds@, protocols@),
{
    let mut k: usize = 0;
    while k < bounds.len()
        invariant
            k <= bounds@.len(),
            forall|a: int, b: int|
                0 <= a < k && 0 <= b < bounds@[a]@.len() ==> !is_protocol_trait(
                    protocols@,
                    #[trigger] bounds@[a]@[b].trait_id,
                ),
        decreases bounds.len() - k,
    {
        let mut j: usize = 0;
        while j < bounds[k].len()
            invariant
                k < bounds@.len(),
                j <= bounds@[k as int]@.len(),
                forall|b: int|
                    0 <= b < j ==> !is_protocol_trait(protocols@, #[trigger] bounds@[k as int]@[b].trait_id),
            decreases bounds[k as int]@.len() - j,
        {
            if is_protocol_trait_exec(protocols, bounds[k][j].trait_id) {
                assert(0 <= k < bounds@.len() && 0 <= j < bounds@[k as int]@.len() && is_protocol_trait(
                    protocols@,
                    bounds@[k as int]@[j as int].trait_id,
                ));
                return true;
            }
            j = j + 1;
        }
        k = k + 1;
    }
    false
}

/// Whether `v` occurs in an argument of a bound of the first `k` variables.
spec fn bound_var_before(bounds: Seq<Vec<TraitBound>>, k: int, v: u32) -> bool {
    exists|a: int, b: int|
        0 <= a < k && 0 <= b < bounds[a]@.len() && occurs_in(view_types(#[trigger] bounds[a]@[b].type_args@), v)
}

/// Whether `v` occurs in an argument of one of the first `j` bounds of variable `k`.
spec fn bound_var_within(bounds: Seq<Vec<TraitBound>>, k: int, j: int, v: u32) -> bool {
    exists|b: int| 0 <= b < j && occurs_in(view_types(#[trigger] bounds[k]@[b].type_args@), v)
}

/// `vars` followed by the variables the bounds' arguments add.
fn with_bound_vars(vars: &Vec<u32>, bounds: &Vec<Vec<TraitBound>>) -> (r: Vec<u32>)
    ensures
        collected(vars@, r@, |v: u32| bound_var(bounds@, v)),
{
    let mut out = copy_vars(vars);
    assert(out@.subrange(0, out@.len() as int) =~= out@);
    let ghost before = out@;
    let mut k: usize = 0;
    while k < bounds.len()
        invariant
            k <= bounds@.len(),
            collected(before, out@, |v: u32| bound_var_before(bounds@, k as int, v)),
        decreases bounds.len() - k,
    {
        let ghost at_k = out@;
        let mut j: usize = 0;
        assert(at_k.subrange(0, at_k.len() as int) =~= at_k);
        while j < bounds[k].len()
            invariant
                k < bounds@.len(),
                j <= bounds@[k as int]@.len(),
                collected(at_k, out@, |v: u32| bound_var_within(bounds@, k as int, j as int, v)),
            decreases bounds[k as int]@.len() - j,
        {
            let ghost s = out@;
            collect_vars_in(&bounds[k][j].type_args, &mut out);
            proof {
                let args = view_types(bounds@[k as int]@[j as int].type_args@);
                lemma_collected_trans(
                    at_k,
                    s,
                    out@,
                    |v: u32| bound_var_within(bounds@, k as int, j as int, v),
                    |v: u32| occurs_in(args, v),
                );
                assert forall|v: u32|
                    #[trigger] bound_var_within(bounds@, k as int, j + 1, v) == (bound_var_within(
                        bounds@,
                        k as int,
                        j as int,
                        v,
                    ) || occurs_in(args, v)) by {
                    if bound_var_within(bounds@, k as int, j + 1, v) {
                        let b = choose|b: int|
                            0 <= b < j + 1 && occurs_in(view_types(#[trigger] bounds@[k as int]@[b].type_args@), v);
                        if b < j {
                            assert(bound_var_within(bounds@, k as int, j as int, v));
                        }
                    }
                    if bound_var_within(bounds@, k as int, j as int, v) {
                        let b = choose|b: int|
                            0 <= b < j && occurs_in(view_types(#[trigger] bounds@[k as int]@[b].type_args@), v);
                        assert(0 <= b < j + 1 && occurs_in(view_types(bounds@[k as int]@[b].type_args@), v));
                    }
                    if occurs_in(args, v) {
                        assert(0 <= j < j + 1 && occurs_in(view_types(bounds@[k as int]@[j as int].type_args@), v));
                    }
                }
                lemma_collected_same(
                    at_k,
                    out@,
                    |v: u32| bound_var_within(bounds@, k as int, j as int, v) || occurs_in(args, v),
                    |v: u32| bound_var_within(bounds@, k as int, j + 1, v),
                );
            }
            j = j + 1;
        }
        proof {
            let n = bounds@[k as int]@.len() as int;
            lemma_collected_trans(
                before,
                at_k,
                out@,
                |v: u32| bound_var_before(bounds@, k as int, v),
                |v: u32| bound_var_within(bounds@, k as int, n, v),
            );
            assert forall|v: u32|
                #[trigger] bound_var_before(bounds@, k + 1, v) == (bound_var_before(bounds@, k as int, v)
                    || bound_var_within(bounds@, k as int, n, v)) by {
                if bound_var_before(bounds@, k + 1, v) {
                    let (a, b) = choose|a: int, b: int|
                        0 <= a < k + 1 && 0 <= b < bounds@[a]@.len() && occurs_in(
                            view_types(#[trigger] bounds@[a]@[b].type_args@),
                            v,
                        );
                    if a < k {
                        assert(bound_var_before(bounds@, k as int, v));
                    } else {
                        assert(bound_var_within(bounds@, k as int, n, v));
                    }
                }
                if bound_var_before(bounds@, k as int, v) {
                    let (a, b) = choose|a: int, b: int|
                        0 <= a < k && 0 <= b < bounds@[a]@.len() && occurs_in(
                            view_types(#[trigger] bounds@[a]@[b].type_args@),
                            v,
                        );
                    assert(0 <= a < k + 1 && 0 <= b < bounds@[a]@.len() && occurs_in(
                        view_types(bounds@[a]@[b].type_args@),
                        v,
                    ));
                }
                if bound_var_within(bounds@, k as int, n, v) {
                    let b = choose|b: int|
                        0 <= b < n && occurs_in(view_types(#[trigger] bounds@[k as int]@[b].type_args@), v);
                    assert(0 <= k < k + 1 && 0 <= b < bounds@[k as int]@.len() && occurs_in(
                        view_types(bounds@[k as int]@[b].type_args@),
                        v,
                    ));
                }
            }
            lemma_collected_same(
                before,
                out@,
                |v: u32| bound_var_before(bounds@, k as int, v) || bound_var_within(bounds@, k as int, n, v),
                |v: u32| bound_var_before(bounds@, k + 1, v),
            );
        }
        k = k + 1;
    }
    proof {
        assert forall|v: u32| #[trigger] bound_var_before(bounds@, bounds@.len() as int, v) == bound_var(bounds@, v) by {
        }
        lemma_collected_same(
            vars@,
            out@,
            |v: u32| bound_var_before(bounds@, bounds@.len() as int, v),
            |v: u32| bound_var(bounds@, v),
        );
    }
    out
}

/// The distinct variables among `ts`.
fn roots_of(ts: &Vec<Type>) -> (r: Vec<u32>)
    ensures
        collected(
            Seq::empty(),
            r@,
            |x: u32| exists|i: int| 0 <= i < ts@.len() && ts@[i]@ == SpecType::TypeVar(x),
        ),
{
    let mut out: Vec<u32> = Vec::new();
    let mut i: usize = 0;
    assert(out@.subrange(0, 0) =~= out@);
    while i < ts.len()
        invariant
            i <= ts@.len(),
            collected(
                Seq::empty(),
                out@,
                |x: u32| exists|j: int| 0 <= j < i && ts@[j]@ == SpecType::TypeVar(x),
            ),
        decreases ts.len() - i,
    {
        let ghost s = out@;
        if let Type::TypeVar(x) = &ts[i] {
            add_var(&mut out, *x);
            proof {
                lemma_collected_trans(
                    Seq::empty(),
                    s,
                    out@,
                    |y: u32| exists|j: int| 0 <= j < i && ts@[j]@ == SpecType::TypeVar(y),
                    |y: u32| y == *x,
                );
            }
        }
        proof {
            assert forall|y: u32|
                out@.contains(y) <==> (exists|j: int|
                    0 <= j < i + 1 && ts@[j]@ == SpecType::TypeVar(y)) by {
                if exists|j: int| 0 <= j < i + 1 && ts@[j]@ == SpecType::TypeVar(y) {
                    let j = choose|j: int| 0 <= j < i + 1 && ts@[j]@ == SpecType::TypeVar(y);
                    if j == i {
                        assert(ts@[j] == Type::TypeVar(y));
                    }
                }
            }
        }
        i = i + 1;
    }
    out
}

proof fn lemma_view_pairs_push(ps: Seq<(u32, Type)>, x: (u32, Type))
    ensures
        view_var_pairs(ps.push(x)) == view_var_pairs(ps).push((x.0, x.1@)),
{
    assert(view_var_pairs(ps.push(x)) =~= view_var_pairs(ps).push((x.0, x.1@)));
}

proof fn lemma_view_carried_push(bs: Seq<(u32, TraitBound)>, x: (u32, TraitBound))
    ensures
        view_carried(bs.push(x)) == view_carried(bs).push((x.0, x.1@)),
{
    assert(view_carried(bs.push(x)) =~= view_carried(bs).push((x.0, x.1@)));
}

/// Each root with its fresh variable, then each variable with its replacement.
fn build_pairs(
    all: &Vec<u32>,
    resolved: &Vec<Type>,
    roots: &Vec<u32>,
    fresh: &Vec<Type>,
    owner: &Substitution,
) -> (r: Vec<(u32, Type)>)
    requires
        all@.len() == resolved@.len(),
        roots@.len() == fresh@.len(),
        owner.wf(),
    ensures
        view_var_pairs(r@) == instance_pairs(
            all@,
            view_types(resolved@),
            roots@,
            view_types(fresh@),
            owner@,
        ),
{
    let ghost rp_view = root_pairs(roots@, view_types(fresh@));
    let mut rp: Vec<(u32, Type)> = Vec::new();
    let mut j: usize = 0;
    while j < roots.len()
        invariant
            j <= roots@.len(),
            roots@.len() == fresh@.len(),
            rp_view == root_pairs(roots@, view_types(fresh@)),
            view_var_pairs(rp@) == rp_view.take(j as int),
        decreases roots.len() - j,
    {
        let entry = (roots[j], clone_type(&fresh[j]));
        proof {
            lemma_view_pairs_push(rp@, entry);
            assert(rp_view.take(j + 1) =~= rp_view.take(j as int).push(rp_view[j as int]));
            assert(view_types(fresh@)[j as int] == fresh@[j as int]@);
        }
        rp.push(entry);
        j = j + 1;
    }
    assert(rp_view.take(roots@.len() as int) =~= rp_view);
    let ghost tail = Seq::new(
        all@.len(),
        |i: int| (all@[i], replacement(view_types(resolved@)[i], rp_view, owner@)),
    );
    let mut out: Vec<(u32, Type)> = Vec::new();
    let mut j: usize = 0;
    while j < rp.len()
        invariant
            j <= rp@.len(),
            view_var_pairs(out@) == view_var_pairs(rp@).take(j as int),
        decreases rp.len() - j,
    {
        let entry = (rp[j].0, clone_type(&rp[j].1));
        proof {
            lemma_view_pairs_push(out@, entry);
            assert(view_var_pairs(rp@).take(j + 1) =~= view_var_pairs(rp@).take(j as int).push(
                view_var_pairs(rp@)[j as int],
            ));
        }
        out.push(entry);
        j = j + 1;
    }
    assert(view_var_pairs(rp@).take(rp@.len() as int) =~= view_var_pairs(rp@));
    let mut i: usize = 0;
    while i < all.len()
        invariant
            i <= all@.len(),
            all@.len() == resolved@.len(),
            owner.wf(),
            view_var_pairs(rp@) == rp_view,
            tail == Seq::new(
                all@.len(),
                |i: int| (all@[i], replacement(view_types(resolved@)[i], rp_view, owner@)),
            ),
            view_var_pairs(out@) == rp_view + tail.take(i as int),
        decreases all.len() - i,
    {
        let replaced = match &resolved[i] {
            Type::TypeVar(x) => match lookup_var(&rp, *x) {
                Some(t) => clone_type(t),
                None => Type::TypeVar(*x),
            },
            other => other.substitute_generics(owner),
        };
        assert(view_types(resolved@)[i as int] == resolved@[i as int]@);
        let entry = (all[i], replaced);
        proof {
            lemma_view_pairs_push(out@, entry);
            assert(tail.take(i + 1) =~= tail.take(i as int).push(tail[i as int]));
            assert(rp_view + tail.take(i + 1) =~= (rp_view + tail.take(i as int)).push(tail[i as int]));
        }
        out.push(entry);
        i = i + 1;
    }
    assert(tail.take(all@.len() as int) =~= tail);
    out
}

/// A bound carried over under `pairs` and the owner's substitution.
fn carry_bound(b: &TraitBound, pairs: &Vec<(u32, Type)>, owner: &Substitution) -> (r: TraitBound)
    requires
        owner.wf(),
    ensures
        r@ == carried_bound(*b, view_var_pairs(pairs@), owner@),
{
    let mut args: Vec<Type> = Vec::new();
    let mut i: usize = 0;
    while i < b.type_args.len()
        invariant
            i <= b.type_args@.len(),
            owner.wf(),
            args@.len() == i,
            forall|j: int|
                0 <= j < i ==> (#[trigger] args@[j])@ == subst_type(
                    subst_vars(b.type_args@[j]@, view_var_pairs(pairs@)),
                    owner@,
                ),
        decreases b.type_args.len() - i,
    {
        let replaced = substitute_vars(&b.type_args[i], pairs);
        args.push(replaced.substitute_generics(owner));
        i = i + 1;
    }
    let r = TraitBound { trait_id: b.trait_id, type_args: args };
    assert(r@.type_args =~= carried_bound(*b, view_var_pairs(pairs@), owner@).type_args);
    r
}

/// The bounds of each variable, carried to the fresh variable replacing it.
fn carry_bounds(
    vars: &Vec<u32>,
    bounds: &Vec<Vec<TraitBound>>,
    pairs: &Vec<(u32, Type)>,
    owner: &Substitution,
) -> (r: Vec<(u32, TraitBound)>)
    requires
        vars@.len() == bounds@.len(),
        owner.wf(),
    ensures
        view_carried(r@) == carried_bounds(
            vars@,
            bounds@,
            view_var_pairs(pairs@),
            owner@,
            vars@.len() as int,
        ),
{
    let ghost ps = view_var_pairs(pairs@);
    let mut out: Vec<(u32, TraitBound)> = Vec::new();
    let mut k: usize = 0;
    while k < vars.len()
        invariant
            k <= vars@.len(),
            vars@.len() == bounds@.len(),
            owner.wf(),
            ps == view_var_pairs(pairs@),
            view_carried(out@) == carried_bounds(vars@, bounds@, ps, owner@, k as int),
        decreases vars.len() - k,
    {
        let ghost at_k = view_carried(out@);
        match lookup_var(pairs, vars[k]) {
            Some(Type::TypeVar(instance)) => {
                let instance = *instance;
                let ghost added = bounds@[k as int]@.map_values(
                    |b: TraitBound| (instance, carried_bound(b, ps, owner@)),
                );
                let mut j: usize = 0;
                while j < bounds[k].len()
                    invariant
                        k < bounds@.len(),
                        j <= bounds@[k as int]@.len(),
                        owner.wf(),
                        ps == view_var_pairs(pairs@),
                        added == bounds@[k as int]@.map_values(
                            |b: TraitBound| (instance, carried_bound(b, ps, owner@)),
                        ),
                        view_carried(out@) == at_k + added.take(j as int),
                    decreases bounds[k as int]@.len() - j,
                {
                    let carried = carry_bound(&bounds[k][j], pairs, owner);
                    let entry = (instance, carried);
                    proof {
                        lemma_view_carried_push(out@, entry);
                        assert(added.take(j + 1) =~= added.take(j as int).push(added[j as int]));
                        assert(at_k + added.take(j + 1) =~= (at_k + added.take(j as int)).push(
                            added[j as int],
                        ));
                    }
                    out.push(entry);
                    j = j + 1;
                }
                assert(added.take(bounds@[k as int]@.len() as int) =~= added);
            },
            _ => {
                assert(at_k + Seq::<(u32, SpecTraitBound)>::empty() =~= at_k);
            },
        }
        k = k + 1;
    }
    out
}

/// The member with its variables replaced as `pairs` says.
fn instantiate(selected: SelectedMethod, pairs: &Vec<(u32, Type)>) -> (r: SelectedMethod)
    ensures
        instantiated(selected, r, view_var_pairs(pairs@)),
{
    let SelectedMethod {
        target,
        impl_def,
        pending_impl_bounds,
        function,
        owner_substitution,
        substituted_params,
        return_type,
        receiver,
    } = selected;
    let function = match function {
        Some(f) => {
            let MethodSignature {
                id,
                name,
                is_unsafe,
                self_receiver,
                generic_params,
                params,
                is_method,
                ret_type,
                generic_bounds,
            } = f;
            Some(
                MethodSignature {
                    id,
                    name,
                    is_unsafe,
                    self_receiver,
                    generic_params,
                    params: substitute_vars_in(&params, pairs),
                    is_method,
                    ret_type: substitute_vars(&ret_type, pairs),
                    generic_bounds,
                },
            )
        },
        None => None,
    };
    SelectedMethod {
        target,
        impl_def,
        pending_impl_bounds,
        function,
        owner_substitution,
        substituted_params: substitute_vars_in(&substituted_params, pairs),
        return_type: substitute_vars(&return_type, pairs),
        receiver,
    }
}

fn end(protocols: Vec<CallableProtocol>, selected: SelectedMethod) -> (r: (CallableInstance, InstanceRequest))
    ensures
        r.0.protocols == protocols,
        r.0.inv(),
        ends_with(r.0, r.1, selected),
{
    (CallableInstance { protocols, stage: InstanceStage::Finished }, InstanceRequest::Done(selected))
}

impl CallableInstance {
    /// What the stage holds fits together: the member has a signature and a
    /// well-formed owner substitution, and answers line up with what they answer.
    pub open spec fn inv(&self) -> bool {
        match self.stage {
            InstanceStage::Bounds { selected, .. } => selected.function is Some
                && selected.owner_substitution.wf(),
            InstanceStage::Resolved { selected, vars, bounds, .. } => {
                &&& selected.function is Some
                &&& selected.owner_substitution.wf()
                &&& bounds@.len() == vars@.len()
            },
            InstanceStage::Fresh { selected, vars, bounds, all, resolved, .. } => {
                &&& selected.function is Some
                &&& selected.owner_substitution.wf()
                &&& bounds@.len() == vars@.len()
                &&& resolved@.len() == all@.len()
            },
            InstanceStage::Recorded { .. } => true,
            InstanceStage::Finished => true,
        }
    }

    /// Starts instantiating `selected`. A member that does not come from an
    /// impl, has no signature, or whose explicit parameters and result
    /// mention no inference variable is handed back at once; otherwise the
    /// bounds of those variables are asked for.
    pub fn start(selected: SelectedMethod, protocols: Vec<CallableProtocol>) -> (r: (
        CallableInstance,
        InstanceRequest,
    ))
        requires
            selected.owner_substitution.wf(),
        ensures
            r.0.protocols == protocols,
            r.0.inv(),
            selected.impl_def is None || selected.function is None ==> ends_with(r.0, r.1, selected),
            selected.impl_def is Some && selected.function is Some ==> {
                &&& r.1 is Done ==> ends_with(r.0, r.1, selected) && forall|v: u32|
                    !member_var(selected.function->0, v)
                &&& !(r.1 is Done) ==> {
                    &&& r.0.stage matches InstanceStage::Bounds { selected: sel, vars }
                    &&& sel == selected
                    &&& collected(Seq::empty(), vars@, |v: u32| member_var(selected.function->0, v))
                    &&& vars@.len() > 0
                    &&& r.1 matches InstanceRequest::VariableBounds(asked)
                    &&& asked@ == vars@
                }
            },
    {
        if selected.impl_def.is_none() {
            return end(protocols, selected);
        }
        let vars = match &selected.function {
            Some(f) => member_vars(f),
            None => {
                return end(protocols, selected);
            },
        };
        if vars.len() == 0 {
            proof {
                assert forall|v: u32| !member_var(selected.function->0, v) by {
                    if member_var(selected.function->0, v) {
                        assert(vars@.contains(v));
                    }
                }
            }
            return end(protocols, selected);
        }
        let asked = copy_vars(&vars);
        (
            CallableInstance { protocols, stage: InstanceStage::Bounds { selected, vars } },
            InstanceRequest::VariableBounds(asked),
        )
    }

    /// Takes the answer to the last request and goes on, as
    /// [`instance_transition`] says.
    pub fn step(self, answer: InstanceAnswer) -> (r: (CallableInstance, InstanceRequest))
        requires
            self.inv(),
            !(self.stage is Finished),
        ensures
            r.0.protocols == self.protocols,
            r.0.inv(),
            instance_transition(self, answer, r.0, r.1),
    {
        let CallableInstance { protocols, stage } = self;
        match stage {
            InstanceStage::Bounds { selected, vars } => match answer {
                InstanceAnswer::Bounds(bounds) => {
                    if bounds.len() != vars.len() || !has_callable_bound_exec(&bounds, &protocols) {
                        return end(protocols, selected);
                    }
                    let all = with_bound_vars(&vars, &bounds);
                    let asked = copy_vars(&all);
                    (
                        CallableInstance {
                            protocols,
                            stage: InstanceStage::Resolved { selected, vars, bounds, all },
                        },
                        InstanceRequest::ResolveVariables(asked),
                    )
                },
                _ => end(protocols, selected),
            },
            InstanceStage::Resolved { selected, vars, bounds, all } => match answer {
                InstanceAnswer::Types(resolved) => {
                    if resolved.len() != all.len() {
                        return end(protocols, selected);
                    }
                    let roots = roots_of(&resolved);
                    let asked = copy_vars(&roots);
                    let span = selected.receiver.span;
                    (
                        CallableInstance {
                            protocols,
                            stage: InstanceStage::Fresh { selected, vars, bounds, all, resolved, roots },
                        },
                        InstanceRequest::FreshVariables { roots: asked, span },
                    )
                },
                _ => end(protocols, selected),
            },
            InstanceStage::Fresh { selected, vars, bounds, all, resolved, roots } => match answer {
                InstanceAnswer::Types(fresh) => {
                    if fresh.len() != roots.len() {
                        return end(protocols, selected);
                    }
                    let pairs = build_pairs(&all, &resolved, &roots, &fresh, &selected.owner_substitution);
                    let carried = carry_bounds(&vars, &bounds, &pairs, &selected.owner_substitution);
                    let span = selected.receiver.span;
                    (
                        CallableInstance { protocols, stage: InstanceStage::Recorded { selected, pairs } },
                        InstanceRequest::AddBounds {
                            bounds: carried,
                            span,
                            reason: "inferred method callable argument".to_owned(),
                        },
                    )
                },
                _ => end(protocols, selected),
            },
            InstanceStage::Recorded { selected, pairs } => match answer {
                InstanceAnswer::Recorded => {
                    let after = instantiate(selected, &pairs);
                    (
                        CallableInstance { protocols, stage: InstanceStage::Finished },
                        InstanceRequest::Done(after),
                    )
                },
                _ => end(protocols, selected),
            },
            InstanceStage::Finished => vstd::pervasive::unreached(),
        }
    }
}

/// A copy of a list of variables.
fn copy_vars(vars: &Vec<u32>) -> (r: Vec<u32>)
    ensures
        r@ == vars@,
{
    let mut out: Vec<u32> = Vec::new();
    let mut i: usize = 0;
    while i < vars.len()
        invariant
            i <= vars@.len(),
            out@ == vars@.take(i as int),
        decreases vars.len() - i,
    {
        out.push(vars[i]);
        assert(vars@.take(i + 1) =~= vars@.take(i as int).push(vars@[i as int]));
        i = i + 1;
    }
    assert(vars@.take(vars@.len() as int) =~= vars@);
    out
}

} // verus!
