use vstd::prelude::*;
use crate::callable::{
    callable_args_type, spec_callable_args_type, strip_references, strip_references_exec,
    CallableProtocol,
};
use crate::hir::{GenericParamDecl, HirMethodCallTarget, HirTypeBinding, ParamBounds, TraitBound};
use crate::hir_expr::Span;
use crate::ids::{DefId, GenericParamId};
use crate::matching::{spec_type_pattern_matches, type_pattern_matches};
use crate::subst::{pairs_map, Substitution};
use crate::types::{clone_type, view_type, view_types, SpecType, Type};

verus! {

/// The signature of a method as binding inference reads it.
#[derive(Debug)]
pub struct MethodSignature {
    pub id: DefId,
    pub name: String,
    /// Whether a call needs an unsafe context.
    pub is_unsafe: bool,
    /// Whether the method takes its receiver by value.
    pub self_receiver: bool,
    /// The method's own generic parameters.
    pub generic_params: Vec<GenericParamDecl>,
    /// Parameter types; a method's first parameter is its receiver.
    pub params: Vec<Type>,
    pub is_method: bool,
    pub ret_type: Type,
    /// Bounds on generic parameters, in declaration order.
    pub generic_bounds: Vec<ParamBounds>,
}

/// The methods of one impl.
#[derive(Debug)]
pub struct ImplMethods {
    pub impl_id: DefId,
    pub methods: Vec<MethodSignature>,
}

/// An error reported at a source range.
#[derive(Debug)]
pub struct ResolveError {
    pub message: String,
    pub span: Span,
}

// ---------------------------------------------------------------------------
// What inference of a generalized method's type arguments computes.
// ---------------------------------------------------------------------------

/// The first impl with the given id.
pub open spec fn find_impl(impls: Seq<ImplMethods>, id: DefId) -> Option<ImplMethods>
    decreases impls.len(),
{
    if impls.len() == 0 {
        None
    } else if impls[0].impl_id == id {
        Some(impls[0])
    } else {
        find_impl(impls.drop_first(), id)
    }
}

/// The first method whose id is `id`.
pub open spec fn find_method(methods: Seq<MethodSignature>, id: Option<DefId>) -> Option<
    MethodSignature,
>
    decreases methods.len(),
{
    if methods.len() == 0 {
        None
    } else if Some(methods[0].id) == id {
        Some(methods[0])
    } else {
        find_method(methods.drop_first(), id)
    }
}

/// The method a call target names among `impls`.
pub open spec fn lookup_method(impls: Seq<ImplMethods>, target: HirMethodCallTarget) -> Option<
    MethodSignature,
> {
    match target.spec_impl_id() {
        Some(impl_id) => match find_impl(impls, impl_id) {
            Some(imp) => find_method(imp.methods@, target.spec_method_id()),
            None => None,
        },
        None => None,
    }
}

pub open spec fn view_binding(b: HirTypeBinding) -> (GenericParamId, SpecType) {
    (b.param, view_type(b.ty))
}

pub open spec fn view_bindings(bs: Seq<HirTypeBinding>) -> Seq<(GenericParamId, SpecType)> {
    bs.map_values(|b: HirTypeBinding| view_binding(b))
}

/// Whether some binding binds `p`.
pub open spec fn binds(bs: Seq<(GenericParamId, SpecType)>, p: GenericParamId) -> bool {
    exists|i: int| 0 <= i < bs.len() && #[trigger] bs[i].0 == p
}

/// The method's own generic parameters that the call must bind: those the
/// owner substitution leaves open and that do not belong to the trait.
pub open spec fn required_params(
    params: Seq<GenericParamDecl>,
    owner: Seq<(GenericParamId, SpecType)>,
    trait_id: Option<DefId>,
) -> Seq<GenericParamId>
    decreases params.len(),
{
    if params.len() == 0 {
        Seq::empty()
    } else {
        let rest = required_params(params.drop_last(), owner, trait_id);
        let id = params.last().id;
        if !binds(owner, id) && Some(id.owner) != trait_id {
            rest.push(id)
        } else {
            rest
        }
    }
}

/// One match, keeping the substitution where it fails.
pub open spec fn match_step(
    pattern: SpecType,
    actual: SpecType,
    m: Map<GenericParamId, SpecType>,
) -> Map<GenericParamId, SpecType> {
    match spec_type_pattern_matches(pattern, actual, m) {
        Some(next) => next,
        None => m,
    }
}

/// Matches each parameter type against the argument at its position, as far
/// as both lists go.
pub open spec fn match_params(
    params: Seq<SpecType>,
    args: Seq<SpecType>,
    m: Map<GenericParamId, SpecType>,
) -> Map<GenericParamId, SpecType>
    decreases params.len(),
{
    let n = if params.len() <= args.len() {
        params.len()
    } else {
        args.len()
    };
    if n == 0 {
        m
    } else {
        match_step(params[n - 1], args[n - 1], match_params(params.take(n - 1), args.take(n - 1), m))
    }
}

/// The parameters after the receiver of a method.
pub open spec fn value_params(f: MethodSignature) -> Seq<SpecType> {
    let all = view_types(f.params@);
    if f.is_method && all.len() > 0 {
        all.drop_first()
    } else {
        all
    }
}

/// Whether `trait_id` is the trait of a callable protocol.
pub open spec fn is_protocol_trait(protocols: Seq<CallableProtocol>, trait_id: DefId) -> bool {
    exists|i: int| 0 <= i < protocols.len() && #[trigger] protocols[i].trait_id == trait_id
}

/// For a native function value with packed parameters `packed` and result
/// `ret`, matches the arguments of each callable-protocol bound against them.
pub open spec fn match_native_bounds(
    bounds: Seq<TraitBound>,
    packed: SpecType,
    ret: SpecType,
    protocols: Seq<CallableProtocol>,
    m: Map<GenericParamId, SpecType>,
) -> Map<GenericParamId, SpecType>
    decreases bounds.len(),
{
    if bounds.len() == 0 {
        m
    } else {
        let before = match_native_bounds(bounds.drop_last(), packed, ret, protocols, m);
        let b = bounds.last();
        if b.type_args@.len() == 2 && is_protocol_trait(protocols, b.trait_id) {
            match_step(
                view_type(b.type_args@[1]),
                ret,
                match_step(view_type(b.type_args@[0]), packed, before),
            )
        } else {
            before
        }
    }
}

/// For each bounded generic parameter already bound to a function value
/// (through references), infers from its callable-protocol bounds.
pub open spec fn match_generic_bounds(
    entries: Seq<ParamBounds>,
    protocols: Seq<CallableProtocol>,
    m: Map<GenericParamId, SpecType>,
) -> Map<GenericParamId, SpecType>
    decreases entries.len(),
{
    if entries.len() == 0 {
        m
    } else {
        let before = match_generic_bounds(entries.drop_last(), protocols, m);
        let entry = entries.last();
        if before.contains_key(entry.param) {
            match strip_references(before[entry.param]) {
                SpecType::Function { params, ret, .. } => match_native_bounds(
                    entry.bounds@,
                    spec_callable_args_type(params),
                    *ret,
                    protocols,
                    before,
                ),
                _ => before,
            }
        } else {
            before
        }
    }
}

/// The substitution inferred for a call of `f`: the target's resolved
/// bindings, then the parameters against the arguments, the result type
/// against the expected result, and the callable-protocol bounds.
pub open spec fn inferred_substitution(
    f: MethodSignature,
    resolved_bindings: Seq<(GenericParamId, Type)>,
    arg_types: Seq<SpecType>,
    result: SpecType,
    protocols: Seq<CallableProtocol>,
) -> Map<GenericParamId, SpecType> {
    let after_params = match_params(value_params(f), arg_types, pairs_map(resolved_bindings));
    let after_result = match_step(view_type(f.ret_type), result, after_params);
    match_generic_bounds(f.generic_bounds@, protocols, after_result)
}

/// The bindings added for the required parameters, in order: each one not
/// yet bound that the substitution binds.
pub open spec fn added_bindings(
    required: Seq<GenericParamId>,
    existing: Seq<(GenericParamId, SpecType)>,
    m: Map<GenericParamId, SpecType>,
) -> Seq<(GenericParamId, SpecType)>
    decreases required.len(),
{
    if required.len() == 0 {
        Seq::empty()
    } else {
        let before = added_bindings(required.drop_last(), existing, m);
        let p = required.last();
        if !binds(existing + before, p) && m.contains_key(p) {
            before.push((p, m[p]))
        } else {
            before
        }
    }
}

/// How many required parameters stay unbound.
pub open spec fn unresolved_count(
    required: Seq<GenericParamId>,
    existing: Seq<(GenericParamId, SpecType)>,
    m: Map<GenericParamId, SpecType>,
) -> nat
    decreases required.len(),
{
    if required.len() == 0 {
        0
    } else {
        let before = added_bindings(required.drop_last(), existing, m);
        let p = required.last();
        unresolved_count(required.drop_last(), existing, m) + if !binds(existing + before, p)
            && !m.contains_key(p) {
            1nat
        } else {
            0nat
        }
    }
}

/// Every added binding is one that the substitution holds.
proof fn lemma_added_from_substitution(
    required: Seq<GenericParamId>,
    existing: Seq<(GenericParamId, SpecType)>,
    m: Map<GenericParamId, SpecType>,
)
    ensures
        forall|i: int|
            0 <= i < added_bindings(required, existing, m).len() ==> m.contains_key(
                #[trigger] added_bindings(required, existing, m)[i].0,
            ),
    decreases required.len(),
{
    if required.len() > 0 {
        let rest = required.drop_last();
        lemma_added_from_substitution(rest, existing, m);
        let before = added_bindings(rest, existing, m);
        let added = added_bindings(required, existing, m);
        assert forall|i: int| 0 <= i < added.len() implies m.contains_key(#[trigger] added[i].0) by {
            if i < before.len() {
                assert(added[i] == before[i]);
            }
        }
    }
}

/// The required parameters left open: bound neither by the method bindings
/// already there nor by the inferred substitution.
pub open spec fn left_open(
    required: Seq<GenericParamId>,
    existing: Seq<(GenericParamId, SpecType)>,
    m: Map<GenericParamId, SpecType>,
) -> Seq<GenericParamId> {
    required.filter(|p: GenericParamId| !binds(existing, p) && !m.contains_key(p))
}

/// In strict mode one error is reported per required parameter that neither
/// the existing method bindings nor inference bind, and no other.
pub proof fn lemma_unresolved_count_is_left_open(
    required: Seq<GenericParamId>,
    existing: Seq<(GenericParamId, SpecType)>,
    m: Map<GenericParamId, SpecType>,
)
    ensures
        unresolved_count(required, existing, m) == left_open(required, existing, m).len(),
    decreases required.len(),
{
    reveal(Seq::filter);
    if required.len() > 0 {
        let rest = required.drop_last();
        lemma_unresolved_count_is_left_open(rest, existing, m);
        let before = added_bindings(rest, existing, m);
        let p = required.last();
        lemma_added_from_substitution(rest, existing, m);
        if !m.contains_key(p) {
            if binds(existing + before, p) {
                let i = choose|i: int| 0 <= i < (existing + before).len() && #[trigger] (existing + before)[i].0 == p;
                if i >= existing.len() {
                    assert(before[i - existing.len()] == (existing + before)[i]);
                    assert(m.contains_key(before[i - existing.len()].0));
                } else {
                    assert(existing[i].0 == p);
                }
            } else {
                assert forall|i: int| 0 <= i < existing.len() implies #[trigger] existing[i].0 != p by {
                    assert((existing + before)[i] == existing[i]);
                }
            }
        }
        assert(required.filter(|q: GenericParamId| !binds(existing, q) && !m.contains_key(q)) == {
            let f = rest.filter(|q: GenericParamId| !binds(existing, q) && !m.contains_key(q));
            if !binds(existing, p) && !m.contains_key(p) {
                f.push(p)
            } else {
                f
            }
        });
    }
}

pub open spec fn inference_message() -> Seq<char> {
    "cannot infer a generalized method type argument"@
}

// ---------------------------------------------------------------------------
// Inferring the type arguments of a generalized method.
// ---------------------------------------------------------------------------

fn find_impl_exec(impls: &Vec<ImplMethods>, id: DefId) -> (r: Option<&ImplMethods>)
    ensures
        match find_impl(impls@, id) {
            Some(imp) => r matches Some(x) && *x == imp,
            None => r is None,
        },
{
    let mut i: usize = 0;
    assert(impls@.skip(0) =~= impls@);
    while i < impls.len()
        invariant
            i <= impls@.len(),
            find_impl(impls@, id) == find_impl(impls@.skip(i as int), id),
        decreases impls.len() - i,
    {
        assert(impls@.skip(i as int)[0] == impls@[i as int]);
        assert(impls@.skip(i as int).drop_first() =~= impls@.skip(i + 1));
        if impls[i].impl_id == id {
            return Some(&impls[i]);
        }
        i = i + 1;
    }
    assert(impls@.skip(i as int).len() == 0);
    None
}

fn find_method_exec(methods: &Vec<MethodSignature>, id: Option<DefId>) -> (r: Option<
    &MethodSignature,
>)
    ensures
        match find_method(methods@, id) {
            Some(f) => r matches Some(x) && *x == f,
            None => r is None,
        },
{
    let mut i: usize = 0;
    assert(methods@.skip(0) =~= methods@);
    while i < methods.len()
        invariant
            i <= methods@.len(),
            find_method(methods@, id) == find_method(methods@.skip(i as int), id),
        decreases methods.len() - i,
    {
        assert(methods@.skip(i as int)[0] == methods@[i as int]);
        assert(methods@.skip(i as int).drop_first() =~= methods@.skip(i + 1));
        if Some(methods[i].id) == id {
            return Some(&methods[i]);
        }
        i = i + 1;
    }
    assert(methods@.skip(i as int).len() == 0);
    None
}

fn binds_exec(bs: &Vec<HirTypeBinding>, p: GenericParamId) -> (r: bool)
    ensures
        r == binds(view_bindings(bs@), p),
{
    let mut i: usize = 0;
    while i < bs.len()
        invariant
            i <= bs@.len(),
            forall|j: int| 0 <= j < i ==> bs@[j].param != p,
        decreases bs.len() - i,
    {
        if bs[i].param == p {
            assert(view_bindings(bs@)[i as int].0 == p);
            return true;
        }
        i = i + 1;
    }
    assert forall|j: int| 0 <= j < view_bindings(bs@).len() implies #[trigger] view_bindings(bs@)[j].0 != p by {
        assert(view_bindings(bs@)[j].0 == bs@[j].param);
    }
    false
}

fn required_exec(
    params: &Vec<GenericParamDecl>,
    owner: &Vec<HirTypeBinding>,
    trait_id: Option<DefId>,
) -> (r: Vec<GenericParamId>)
    ensures
        r@ == required_params(params@, view_bindings(owner@), trait_id),
{
    let mut out: Vec<GenericParamId> = Vec::new();
    let mut i: usize = 0;
    while i < params.len()
        invariant
            i <= params@.len(),
            out@ == required_params(params@.take(i as int), view_bindings(owner@), trait_id),
        decreases params.len() - i,
    {
        let id = params[i].id;
        assert(params@.take(i + 1).drop_last() =~= params@.take(i as int));
        if !binds_exec(owner, id) && Some(id.owner) != trait_id {
            out.push(id);
        }
        i = i + 1;
    }
    assert(params@.take(params@.len() as int) =~= params@);
    out
}

pub(crate) fn is_protocol_trait_exec(protocols: &Vec<CallableProtocol>, trait_id: DefId) -> (r: bool)
    ensures
        r == is_protocol_trait(protocols@, trait_id),
{
    let mut i: usize = 0;
    while i < protocols.len()
        invariant
            i <= protocols@.len(),
            forall|j: int| 0 <= j < i ==> protocols@[j].trait_id != trait_id,
        decreases protocols.len() - i,
    {
        if protocols[i].trait_id == trait_id {
            return true;
        }
        i = i + 1;
    }
    false
}

/// The order of generic parameters: by owning definition, then position.
pub open spec fn param_le(a: GenericParamId, b: GenericParamId) -> bool {
    ||| a.owner.krate < b.owner.krate
    ||| a.owner.krate == b.owner.krate && a.owner.local < b.owner.local
    ||| a.owner.krate == b.owner.krate && a.owner.local == b.owner.local && a.index <= b.index
}

/// Whether bindings are ordered by their parameters.
pub open spec fn sorted_by_param(bs: Seq<(GenericParamId, SpecType)>) -> bool {
    forall|i: int, j: int| 0 <= i < j < bs.len() ==> param_le(#[trigger] bs[i].0, #[trigger] bs[j].0)
}

fn param_le_exec(a: GenericParamId, b: GenericParamId) -> (r: bool)
    ensures
        r == param_le(a, b),
{
    a.owner.krate < b.owner.krate || (a.owner.krate == b.owner.krate && (a.owner.local < b.owner.local
        || (a.owner.local == b.owner.local && a.index <= b.index)))
}

proof fn lemma_insert_to_multiset<A>(s: Seq<A>, i: int, x: A)
    requires
        0 <= i <= s.len(),
    ensures
        s.insert(i, x).to_multiset() =~= s.to_multiset().insert(x),
{
    broadcast use vstd::seq_lib::group_to_multiset_ensures;
    let t = s.insert(i, x);
    assert(t.remove(i) =~= s);
    assert(t[i] == x);
    assert(t.contains(x));
    assert(t.to_multiset().remove(x) =~= s.to_multiset());
}

/// Orders bindings by their parameters, keeping bindings of one parameter in
/// their order.
fn sort_bindings(bs: Vec<HirTypeBinding>) -> (r: Vec<HirTypeBinding>)
    ensures
        sorted_by_param(view_bindings(r@)),
        view_bindings(r@).to_multiset() == view_bindings(bs@).to_multiset(),
{
    broadcast use vstd::seq_lib::group_to_multiset_ensures;
    let ghost all = view_bindings(bs@).to_multiset();
    let mut rest = bs;
    let mut out: Vec<HirTypeBinding> = Vec::new();
    assert(view_bindings(out@).to_multiset() =~= vstd::multiset::Multiset::empty());
    while rest.len() > 0
        invariant
            sorted_by_param(view_bindings(out@)),
            view_bindings(out@).to_multiset().add(view_bindings(rest@).to_multiset()) == all,
        decreases rest.len(),
    {
        let ghost before_rest = view_bindings(rest@);
        let b = rest.remove(0);
        let ghost x = view_binding(b);
        assert(view_bindings(rest@) =~= before_rest.remove(0));
        assert(before_rest[0] == x);
        let mut pos: usize = 0;
        while pos < out.len() && param_le_exec(out[pos].param, b.param)
            invariant
                pos <= out@.len(),
                forall|j: int| 0 <= j < pos ==> param_le(#[trigger] out@[j].param, b.param),
            decreases out.len() - pos,
        {
            pos = pos + 1;
        }
        let ghost before_out = view_bindings(out@);
        out.insert(pos, b);
        let ghost now = view_bindings(out@);
        assert(now =~= before_out.insert(pos as int, x));
        proof {
            lemma_insert_to_multiset(before_out, pos as int, x);
            assert forall|i: int, j: int| 0 <= i < j < now.len() implies param_le(
                #[trigger] now[i].0,
                #[trigger] now[j].0,
            ) by {
                if i < pos && j < pos {
                    assert(now[i] == before_out[i] && now[j] == before_out[j]);
                } else if i < pos && j == pos {
                    assert(now[i] == before_out[i]);
                    assert(before_out[i].0 == out@[i].param);
                } else if i < pos {
                    assert(now[i] == before_out[i] && now[j] == before_out[j - 1]);
                } else if i == pos {
                    assert(now[j] == before_out[j - 1]);
                    if pos < before_out.len() {
                        assert(before_out[pos as int].0 == out@[pos + 1].param);
                        assert(param_le(before_out[pos as int].0, before_out[j - 1].0) || j - 1 == pos);
                    }
                } else {
                    assert(now[i] == before_out[i - 1] && now[j] == before_out[j - 1]);
                }
            }
            assert(before_rest.contains(x));
            before_rest.to_multiset_ensures();
            vstd::seq_lib::to_multiset_remove(before_rest, 0);
            assert(before_rest.to_multiset().count(x) > 0);
            assert(before_rest.remove(0).to_multiset() == before_rest.to_multiset().remove(x));
            assert(before_rest.to_multiset() =~= view_bindings(rest@).to_multiset().insert(x));
        }
    }
    assert(view_bindings(rest@).to_multiset() =~= vstd::multiset::Multiset::empty());
    out
}

/// Bindings that are the existing ones and the added ones, in whatever
/// order, keep every existing binding, hold every added one, and no more.
pub proof fn lemma_method_bindings_kept_and_added(
    result: Seq<(GenericParamId, SpecType)>,
    existing: Seq<(GenericParamId, SpecType)>,
    added: Seq<(GenericParamId, SpecType)>,
)
    requires
        result.to_multiset() == (existing + added).to_multiset(),
    ensures
        forall|i: int| 0 <= i < existing.len() ==> result.contains(#[trigger] existing[i]),
        forall|i: int| 0 <= i < added.len() ==> result.contains(#[trigger] added[i]),
        result.len() == existing.len() + added.len(),
{
    broadcast use vstd::seq_lib::group_to_multiset_ensures;
    let all = existing + added;
    assert forall|i: int| 0 <= i < existing.len() implies result.contains(#[trigger] existing[i]) by {
        assert(all[i] == existing[i]);
        assert(all.contains(existing[i]));
        assert(all.to_multiset().count(existing[i]) > 0);
    }
    assert forall|i: int| 0 <= i < added.len() implies result.contains(#[trigger] added[i]) by {
        assert(all[existing.len() + i] == added[i]);
        assert(all.contains(added[i]));
        assert(all.to_multiset().count(added[i]) > 0);
    }
    assert(result.to_multiset().len() == all.to_multiset().len());
}

/// Where a generalized method is called and some of its own type arguments
/// are still open, infers them: from the target's resolved bindings, the
/// parameters against the argument types, the result type against the
/// expected result, and the callable-protocol bounds of generic parameters
/// bound to function values. Each inferred argument is added to the target's
/// method bindings, which then stand ordered by parameter (owning definition, then
/// position); where `strict`, each one left open is reported. The
/// types are those the inference engine resolves: `resolved_bindings` holds
/// the target's owner bindings followed by its method bindings.
pub fn materialize_method_bindings(
    impls: &Vec<ImplMethods>,
    resolved_bindings: Vec<(GenericParamId, Type)>,
    arg_types: &Vec<Type>,
    result: &Type,
    protocols: &Vec<CallableProtocol>,
    strict: bool,
    span: Span,
    target: &mut HirMethodCallTarget,
    errors: &mut Vec<ResolveError>,
)
    ensures
        match lookup_method(impls@, *old(target)) {
            None => *final(target) == *old(target) && final(errors)@ == old(errors)@,
            Some(f) => {
                let required = required_params(
                    f.generic_params@,
                    view_bindings(old(target).owner_substitution@),
                    old(target).spec_trait_id(),
                );
                let existing = view_bindings(old(target).method_substitution@);
                if forall|k: int| 0 <= k < required.len() ==> binds(existing, #[trigger] required[k]) {
                    *final(target) == *old(target) && final(errors)@ == old(errors)@
                } else {
                    let m = inferred_substitution(
                        f,
                        resolved_bindings@,
                        view_types(arg_types@),
                        result@,
                        protocols@,
                    );
                    &&& final(target).target == old(target).target
                    &&& final(target).owner_substitution == old(target).owner_substitution
                    &&& sorted_by_param(view_bindings(final(target).method_substitution@))
                    &&& view_bindings(final(target).method_substitution@).to_multiset() == (existing
                        + added_bindings(required, existing, m)).to_multiset()
                    &&& final(errors)@.len() == old(errors)@.len() + if strict {
                        unresolved_count(required, existing, m)
                    } else {
                        0nat
                    }
                    &&& final(errors)@.take(old(errors)@.len() as int) == old(errors)@
                    &&& forall|k: int|
                        old(errors)@.len() <= k < final(errors)@.len() ==> (#[trigger] final(errors)@[k]).message@
                            == inference_message() && final(errors)@[k].span == span
                }
            },
        },
{
    let impl_id = match target.impl_id() {
        Some(id) => id,
        None => {
            return ;
        },
    };
    let imp = match find_impl_exec(impls, impl_id) {
        Some(imp) => imp,
        None => {
            return ;
        },
    };
    let function = match find_method_exec(&imp.methods, target.method_id()) {
        Some(f) => f,
        None => {
            return ;
        },
    };
    let required = required_exec(&function.generic_params, &target.owner_substitution, target.trait_id());
    let ghost existing = view_bindings(target.method_substitution@);
    let mut all_bound = true;
    let mut k: usize = 0;
    while k < required.len()
        invariant
            k <= required@.len(),
            existing == view_bindings(target.method_substitution@),
            all_bound <==> forall|j: int| 0 <= j < k ==> binds(existing, #[trigger] required@[j]),
        decreases required.len() - k,
    {
        if !binds_exec(&target.method_substitution, required[k]) {
            all_bound = false;
        }
        k = k + 1;
    }
    if all_bound {
        return ;
    }
    let ghost m0 = pairs_map(resolved_bindings@);
    let mut subst = Substitution::from_pairs(resolved_bindings);
    // Parameters against arguments.
    let ghost vp = value_params(*function);
    let ghost av = view_types(arg_types@);
    let first: usize = if function.is_method && function.params.len() > 0 {
        1
    } else {
        0
    };
    let available = function.params.len() - first;
    let count = if available <= arg_types.len() {
        available
    } else {
        arg_types.len()
    };
    assert(vp.len() == available);
    let mut i: usize = 0;
    while i < count
        invariant
            i <= count,
            count <= vp.len(),
            count <= av.len(),
            vp == value_params(*function),
            av == view_types(arg_types@),
            first + available == function.params@.len(),
            available == vp.len(),
            first == (if function.is_method && function.params@.len() > 0 { 1usize } else { 0usize }),
            subst.wf(),
            subst@ == match_params(vp.take(i as int), av.take(i as int), m0),
        decreases count - i,
    {
        assert(vp[i as int] == view_type(function.params@[first + i]));
        let ghost before = subst@;
        type_pattern_matches(&function.params[first + i], &arg_types[i], &mut subst);
        proof {
            let tp = vp.take(i + 1);
            let ta = av.take(i + 1);
            assert(tp.take(i as int) =~= vp.take(i as int));
            assert(ta.take(i as int) =~= av.take(i as int));
            assert(tp[i as int] == vp[i as int]);
            assert(ta[i as int] == av[i as int]);
            assert(subst@ == match_step(vp[i as int], av[i as int], before));
        }
        i = i + 1;
    }
    proof {
        if count > 0 {
            assert(vp.take(count as int).take(count - 1) =~= vp.take(count - 1));
            assert(av.take(count as int).take(count - 1) =~= av.take(count - 1));
        }
    }
    assert(subst@ == match_params(vp, av, m0));
    // The result.
    type_pattern_matches(&function.ret_type, result, &mut subst);
    let ghost after_result = subst@;
    assert(after_result == match_step(view_type(function.ret_type), result@, match_params(vp, av, m0)));
    // Bounds of generic parameters bound to function values.
    let ghost entries = function.generic_bounds@;
    let mut e: usize = 0;
    while e < function.generic_bounds.len()
        invariant
            e <= entries.len(),
            entries == function.generic_bounds@,
            subst.wf(),
            subst@ == match_generic_bounds(entries.take(e as int), protocols@, after_result),
        decreases function.generic_bounds.len() - e,
    {
        let entry = &function.generic_bounds[e];
        let ghost before = subst@;
        assert(entries.take(e + 1).drop_last() =~= entries.take(e as int));
        assert(entries.take(e + 1).last() == *entry);
        let bound_type = match subst.get(&entry.param) {
            Some(t) => Some(clone_type(t)),
            None => None,
        };
        if let Some(actual) = bound_type {
            let native = strip_references_exec(&actual);
            if let Type::Function { params, ret, .. } = native {
                let packed = callable_args_type(params);
                let ghost bounds = entry.bounds@;
                let mut b: usize = 0;
                while b < entry.bounds.len()
                    invariant
                        b <= bounds.len(),
                        bounds == entry.bounds@,
                        subst.wf(),
                        subst@ == match_native_bounds(bounds.take(b as int), packed@, ret@, protocols@, before),
                    decreases entry.bounds.len() - b,
                {
                    let bound = &entry.bounds[b];
                    assert(bounds.take(b + 1).drop_last() =~= bounds.take(b as int));
                    assert(bounds.take(b + 1).last() == *bound);
                    if bound.type_args.len() == 2 && is_protocol_trait_exec(protocols, bound.trait_id) {
                        type_pattern_matches(&bound.type_args[0], &packed, &mut subst);
                        type_pattern_matches(&bound.type_args[1], ret, &mut subst);
                    }
                    b = b + 1;
                }
                assert(bounds.take(bounds.len() as int) =~= bounds);
            }
        }
        e = e + 1;
    }
    assert(entries.take(entries.len() as int) =~= entries);
    let ghost m = subst@;
    // Record what was inferred.
    let ghost old_errors = errors@;
    let mut k: usize = 0;
    while k < required.len()
        invariant
            k <= required@.len(),
            subst.wf(),
            subst@ == m,
            target.target == old(target).target,
            target.owner_substitution == old(target).owner_substitution,
            view_bindings(target.method_substitution@) == existing + added_bindings(
                required@.take(k as int),
                existing,
                m,
            ),
            errors@.len() == old_errors.len() + if strict {
                unresolved_count(required@.take(k as int), existing, m)
            } else {
                0nat
            },
            errors@.take(old_errors.len() as int) == old_errors,
            forall|j: int|
                old_errors.len() <= j < errors@.len() ==> (#[trigger] errors@[j]).message@
                    == inference_message() && errors@[j].span == span,
        decreases required.len() - k,
    {
        let p = required[k];
        let ghost prefix = required@.take(k + 1);
        assert(prefix.drop_last() =~= required@.take(k as int));
        assert(prefix.last() == p);
        let ghost before_bindings = target.method_substitution@;
        let ghost before_errors = errors@;
        if binds_exec(&target.method_substitution, p) {
        } else {
            match subst.get(&p) {
                Some(t) => {
                    target.method_substitution.push(HirTypeBinding { param: p, ty: clone_type(t) });
                    assert(view_bindings(target.method_substitution@) =~= view_bindings(
                        before_bindings,
                    ).push((p, m[p])));
                },
                None => {
                    if strict {
                        errors.push(
                            ResolveError {
                                message: "cannot infer a generalized method type argument".to_owned(),
                                span,
                            },
                        );
                        assert(errors@.take(old_errors.len() as int) =~= before_errors.take(
                            old_errors.len() as int,
                        ));
                    }
                },
            }
        }
        k = k + 1;
    }
    assert(required@.take(required@.len() as int) =~= required@);
    let mut collected: Vec<HirTypeBinding> = Vec::new();
    std::mem::swap(&mut collected, &mut target.method_substitution);
    target.method_substitution = sort_bindings(collected);
}

} // verus!
