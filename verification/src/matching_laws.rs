use vstd::prelude::*;
use crate::ids::GenericParamId;
use crate::hir::{GenericParamDecl, HirImpl, HirImplReceiverPattern, HirMethodCallTarget};
use crate::ids::DefId;
use crate::matching::{
    bind_absent_pairs, bounded_substitution, collect, collect_all, infer, infer_all, match_pair, owner_substitution,
    reduced_pattern, safety_admits, spec_matches, REDUCTION_FUEL,
    spec_receiver_pattern_substitution, spec_seed_receiver_substitution, spec_type_pattern_matches, try_match,
    spec_receiver_pattern, spec_target_matches_impl,
};
use crate::subst::subst_type;
use crate::types::{callable_rank, CallableKind, FunctionSafety, NominalTypeKind, SpecCapture, SpecType};

verus! {

/// Inference never changes or drops a binding it starts from: every generic
/// parameter bound before reading `actual` against `expected` keeps its type.
pub proof fn lemma_infer_keeps_bindings(
    expected: SpecType,
    actual: SpecType,
    m: Map<GenericParamId, SpecType>,
)
    ensures
        m.submap_of(infer(expected, actual, m)),
    decreases expected,
{
    match expected {
        SpecType::Generic(p) => {
            if !m.contains_key(p) {
                assert forall|k| #[trigger] m.dom().contains(k) implies m.insert(p, actual).dom().contains(
                    k,
                ) && m[k] == m.insert(p, actual)[k] by {
                    assert(k != p);
                }
            }
        },
        SpecType::Slice(ei) => match actual {
            SpecType::Slice(ai) => lemma_infer_keeps_bindings(*ei, *ai, m),
            _ => {},
        },
        SpecType::Array(ei, el) => match actual {
            SpecType::Array(ai, al) => if el == al {
                lemma_infer_keeps_bindings(*ei, *ai, m);
            },
            _ => {},
        },
        SpecType::Tuple(es) => match actual {
            SpecType::Tuple(as_) => lemma_infer_all_keeps_bindings(es, as_, m),
            _ => {},
        },
        SpecType::Function { params: ep, ret: er, .. } => match actual {
            SpecType::Function { params: ap, ret: ar, .. } => {
                lemma_infer_all_keeps_bindings(ep, ap, m);
                lemma_infer_keeps_bindings(*er, *ar, infer_all(ep, ap, m));
                lemma_submap_trans(m, infer_all(ep, ap, m), infer(*er, *ar, infer_all(ep, ap, m)));
            },
            _ => {},
        },
        SpecType::Struct { id: ei, args: ea } => match actual {
            SpecType::Struct { id: ai, args: aa } => if ea.len() == aa.len() && ei == ai {
                lemma_infer_all_keeps_bindings(ea, aa, m);
            },
            _ => {},
        },
        SpecType::Enum { id: ei, args: ea } => match actual {
            SpecType::Enum { id: ai, args: aa } => if ea.len() == aa.len() && ei == ai {
                lemma_infer_all_keeps_bindings(ea, aa, m);
            },
            _ => {},
        },
        SpecType::Reference { mutable: em, inner: ei } => match actual {
            SpecType::Reference { mutable: am, inner: ai } => if em == am {
                lemma_infer_keeps_bindings(*ei, *ai, m);
            },
            _ => {},
        },
        SpecType::Pointer(ei) => match actual {
            SpecType::Pointer(ai) => lemma_infer_keeps_bindings(*ei, *ai, m),
            _ => {},
        },
        SpecType::Projection { ty: et, trait_id: etr, assoc_type: eas, trait_args: ea } => match actual {
            SpecType::Projection { ty: at, trait_id: atr, assoc_type: aas, trait_args: aa } => if etr
                == atr && eas == aas && ea.len() == aa.len() {
                lemma_infer_keeps_bindings(*et, *at, m);
                lemma_infer_all_keeps_bindings(ea, aa, infer(*et, *at, m));
                lemma_submap_trans(m, infer(*et, *at, m), infer_all(ea, aa, infer(*et, *at, m)));
            },
            _ => {},
        },
        SpecType::Apply { constructor: ec, args: ea } => match actual {
            SpecType::Apply { constructor: ac, args: aa } => if ea.len() == aa.len() {
                lemma_infer_keeps_bindings(*ec, *ac, m);
                lemma_infer_all_keeps_bindings(ea, aa, infer(*ec, *ac, m));
                lemma_submap_trans(m, infer(*ec, *ac, m), infer_all(ea, aa, infer(*ec, *ac, m)));
            },
            _ => {},
        },
        SpecType::Lambda { params: ep, body: eb } => match actual {
            SpecType::Lambda { params: ap, body: ab } => if ep == ap {
                lemma_infer_keeps_bindings(*eb, *ab, m);
            },
            _ => {},
        },
        _ => {},
    }
}

/// Inference over two lists never changes or drops a binding it starts from.
pub proof fn lemma_infer_all_keeps_bindings(
    es: Seq<SpecType>,
    as_: Seq<SpecType>,
    m: Map<GenericParamId, SpecType>,
)
    ensures
        m.submap_of(infer_all(es, as_, m)),
    decreases es,
{
    let n = if es.len() <= as_.len() {
        es.len()
    } else {
        as_.len()
    };
    if n > 0 {
        let inner = infer_all(es.take(n - 1), as_.take(n - 1), m);
        lemma_infer_all_keeps_bindings(es.take(n - 1), as_.take(n - 1), m);
        lemma_infer_keeps_bindings(es[n - 1], as_[n - 1], inner);
        lemma_submap_trans(m, inner, infer(es[n - 1], as_[n - 1], inner));
    }
}

proof fn lemma_submap_trans(
    a: Map<GenericParamId, SpecType>,
    b: Map<GenericParamId, SpecType>,
    c: Map<GenericParamId, SpecType>,
)
    requires
        a.submap_of(b),
        b.submap_of(c),
    ensures
        a.submap_of(c),
{
    assert forall|k| #[trigger] a.dom().contains(k) implies c.dom().contains(k) && a[k] == c[k] by {
        assert(b.dom().contains(k));
    }
}

/// A successful match only adds bindings: the substitution it leaves extends
/// the one it started from.
pub proof fn lemma_type_pattern_matches_extends(
    pattern: SpecType,
    actual: SpecType,
    m: Map<GenericParamId, SpecType>,
)
    ensures
        spec_type_pattern_matches(pattern, actual, m) matches Some(next) ==> m.submap_of(next),
{
    lemma_infer_keeps_bindings(pattern, actual, m);
}

/// Once everything that reading `actual` against `expected` would bind is
/// bound in `big`, reading it again changes nothing.
pub proof fn lemma_infer_settled(
    expected: SpecType,
    actual: SpecType,
    m: Map<GenericParamId, SpecType>,
    big: Map<GenericParamId, SpecType>,
)
    requires
        infer(expected, actual, m).submap_of(big),
    ensures
        infer(expected, actual, big) == big,
    decreases expected,
{
    match expected {
        SpecType::Generic(p) => {
            assert(infer(expected, actual, m).dom().contains(p));
            assert(big.dom().contains(p));
        },
        SpecType::Slice(ei) => match actual {
            SpecType::Slice(ai) => lemma_infer_settled(*ei, *ai, m, big),
            _ => {},
        },
        SpecType::Array(ei, el) => match actual {
            SpecType::Array(ai, al) => if el == al {
                lemma_infer_settled(*ei, *ai, m, big);
            },
            _ => {},
        },
        SpecType::Tuple(es) => match actual {
            SpecType::Tuple(as_) => lemma_infer_all_settled(es, as_, m, big),
            _ => {},
        },
        SpecType::Function { params: ep, ret: er, .. } => match actual {
            SpecType::Function { params: ap, ret: ar, .. } => {
                let mid = infer_all(ep, ap, m);
                lemma_infer_keeps_bindings(*er, *ar, mid);
                lemma_submap_trans(mid, infer(*er, *ar, mid), big);
                lemma_infer_all_settled(ep, ap, m, big);
                lemma_infer_settled(*er, *ar, mid, big);
            },
            _ => {},
        },
        SpecType::Struct { id: ei, args: ea } => match actual {
            SpecType::Struct { id: ai, args: aa } => if ea.len() == aa.len() && ei == ai {
                lemma_infer_all_settled(ea, aa, m, big);
            },
            _ => {},
        },
        SpecType::Enum { id: ei, args: ea } => match actual {
            SpecType::Enum { id: ai, args: aa } => if ea.len() == aa.len() && ei == ai {
                lemma_infer_all_settled(ea, aa, m, big);
            },
            _ => {},
        },
        SpecType::Reference { mutable: em, inner: ei } => match actual {
            SpecType::Reference { mutable: am, inner: ai } => if em == am {
                lemma_infer_settled(*ei, *ai, m, big);
            },
            _ => {},
        },
        SpecType::Pointer(ei) => match actual {
            SpecType::Pointer(ai) => lemma_infer_settled(*ei, *ai, m, big),
            _ => {},
        },
        SpecType::Projection { ty: et, trait_id: etr, assoc_type: eas, trait_args: ea } => match actual {
            SpecType::Projection { ty: at, trait_id: atr, assoc_type: aas, trait_args: aa } => if etr
                == atr && eas == aas && ea.len() == aa.len() {
                let mid = infer(*et, *at, m);
                lemma_infer_all_keeps_bindings(ea, aa, mid);
                lemma_submap_trans(mid, infer_all(ea, aa, mid), big);
                lemma_infer_settled(*et, *at, m, big);
                lemma_infer_all_settled(ea, aa, mid, big);
            },
            _ => {},
        },
        SpecType::Apply { constructor: ec, args: ea } => match actual {
            SpecType::Apply { constructor: ac, args: aa } => if ea.len() == aa.len() {
                let mid = infer(*ec, *ac, m);
                lemma_infer_all_keeps_bindings(ea, aa, mid);
                lemma_submap_trans(mid, infer_all(ea, aa, mid), big);
                lemma_infer_settled(*ec, *ac, m, big);
                lemma_infer_all_settled(ea, aa, mid, big);
            },
            _ => {},
        },
        SpecType::Lambda { params: ep, body: eb } => match actual {
            SpecType::Lambda { params: ap, body: ab } => if ep == ap {
                lemma_infer_settled(*eb, *ab, m, big);
            },
            _ => {},
        },
        _ => {},
    }
}

/// [`lemma_infer_settled`] for lists.
pub proof fn lemma_infer_all_settled(
    es: Seq<SpecType>,
    as_: Seq<SpecType>,
    m: Map<GenericParamId, SpecType>,
    big: Map<GenericParamId, SpecType>,
)
    requires
        infer_all(es, as_, m).submap_of(big),
    ensures
        infer_all(es, as_, big) == big,
    decreases es,
{
    let n = if es.len() <= as_.len() {
        es.len()
    } else {
        as_.len()
    };
    if n > 0 {
        let mid = infer_all(es.take(n - 1), as_.take(n - 1), m);
        lemma_infer_keeps_bindings(es[n - 1], as_[n - 1], mid);
        lemma_submap_trans(mid, infer(es[n - 1], as_[n - 1], mid), big);
        lemma_infer_all_settled(es.take(n - 1), as_.take(n - 1), m, big);
        lemma_infer_settled(es[n - 1], as_[n - 1], mid, big);
    }
}

/// Matching is idempotent: after a successful match, matching the same
/// pattern against the same type again succeeds and binds nothing new.
pub proof fn lemma_type_pattern_matches_idempotent(
    pattern: SpecType,
    actual: SpecType,
    m: Map<GenericParamId, SpecType>,
)
    ensures
        spec_type_pattern_matches(pattern, actual, m) matches Some(next)
            ==> spec_type_pattern_matches(pattern, actual, next) == Some(next),
{
    let next = infer(pattern, actual, m);
    lemma_infer_settled(pattern, actual, m, next);
}


// ---------------------------------------------------------------------------
// Which parameters inference may bind.
// ---------------------------------------------------------------------------

/// Whether the generic parameter `p` occurs in `t` where inference reads it.
pub open spec fn mentions_generic(t: SpecType, p: GenericParamId) -> bool
    decreases t,
{
    match t {
        SpecType::Generic(q) => q == p,
        SpecType::Slice(inner) => mentions_generic(*inner, p),
        SpecType::Array(inner, _) => mentions_generic(*inner, p),
        SpecType::Pointer(inner) => mentions_generic(*inner, p),
        SpecType::Reference { inner, .. } => mentions_generic(*inner, p),
        SpecType::Tuple(ts) => mentions_generic_in(ts, p),
        SpecType::Struct { args, .. } => mentions_generic_in(args, p),
        SpecType::Enum { args, .. } => mentions_generic_in(args, p),
        SpecType::Function { params, ret, .. } => mentions_generic_in(params, p) || mentions_generic(
            *ret,
            p,
        ),
        SpecType::Projection { ty, trait_args, .. } => mentions_generic(*ty, p) || mentions_generic_in(
            trait_args,
            p,
        ),
        SpecType::Apply { constructor, args } => mentions_generic(*constructor, p)
            || mentions_generic_in(args, p),
        SpecType::Lambda { body, .. } => mentions_generic(*body, p),
        _ => false,
    }
}

/// Whether `p` occurs in one of `ts`.
pub open spec fn mentions_generic_in(ts: Seq<SpecType>, p: GenericParamId) -> bool
    decreases ts,
{
    exists|i: int| 0 <= i < ts.len() && mentions_generic(#[trigger] ts[i], p)
}

/// Inference binds nothing new but generic parameters of the expected type:
/// every key it adds occurs in `expected`.
pub proof fn lemma_infer_new_keys(expected: SpecType, actual: SpecType, m: Map<GenericParamId, SpecType>)
    ensures
        forall|k: GenericParamId| #[trigger]
            infer(expected, actual, m).contains_key(k) ==> m.contains_key(k) || mentions_generic(expected, k),
    decreases expected,
{
    reveal_with_fuel(mentions_generic, 2);
    match expected {
        SpecType::Generic(p) => {
            assert forall|k: GenericParamId| #[trigger]
                infer(expected, actual, m).contains_key(k) implies m.contains_key(k) || mentions_generic(
                expected,
                k,
            ) by {
                if !m.contains_key(p) {
                    assert(infer(expected, actual, m) == m.insert(p, actual));
                }
            }
        },
        SpecType::Slice(ei) => match actual {
            SpecType::Slice(ai) => {
                lemma_infer_new_keys(*ei, *ai, m);
                assert(infer(expected, actual, m) == infer(*ei, *ai, m));
                assert forall|k: GenericParamId| mentions_generic(*ei, k) implies mentions_generic(expected, k) by {}
            },
            _ => {},
        },
        SpecType::Array(ei, el) => match actual {
            SpecType::Array(ai, al) => if el == al {
                lemma_infer_new_keys(*ei, *ai, m);
                assert(infer(expected, actual, m) == infer(*ei, *ai, m));
            },
            _ => {},
        },
        SpecType::Pointer(ei) => match actual {
            SpecType::Pointer(ai) => {
                lemma_infer_new_keys(*ei, *ai, m);
                assert(infer(expected, actual, m) == infer(*ei, *ai, m));
            },
            _ => {},
        },
        SpecType::Reference { mutable: em, inner: ei } => match actual {
            SpecType::Reference { mutable: am, inner: ai } => if em == am {
                lemma_infer_new_keys(*ei, *ai, m);
                assert(infer(expected, actual, m) == infer(*ei, *ai, m));
            },
            _ => {},
        },
        SpecType::Tuple(es) => match actual {
            SpecType::Tuple(as_) => {
                lemma_infer_all_new_keys(es, as_, m);
                assert(infer(expected, actual, m) == infer_all(es, as_, m));
            },
            _ => {},
        },
        SpecType::Struct { id: ei, args: ea } => match actual {
            SpecType::Struct { id: ai, args: aa } => if ea.len() == aa.len() && ei == ai {
                lemma_infer_all_new_keys(ea, aa, m);
                assert(infer(expected, actual, m) == infer_all(ea, aa, m));
            },
            _ => {},
        },
        SpecType::Enum { id: ei, args: ea } => match actual {
            SpecType::Enum { id: ai, args: aa } => if ea.len() == aa.len() && ei == ai {
                lemma_infer_all_new_keys(ea, aa, m);
                assert(infer(expected, actual, m) == infer_all(ea, aa, m));
            },
            _ => {},
        },
        SpecType::Function { params: ep, ret: er, .. } => match actual {
            SpecType::Function { params: ap, ret: ar, .. } => {
                lemma_infer_all_new_keys(ep, ap, m);
                lemma_infer_new_keys(*er, *ar, infer_all(ep, ap, m));
                assert(infer(expected, actual, m) == infer(*er, *ar, infer_all(ep, ap, m)));
            },
            _ => {},
        },
        SpecType::Projection { ty: et, trait_id: etr, assoc_type: eas, trait_args: ea } => match actual {
            SpecType::Projection { ty: at, trait_id: atr, assoc_type: aas, trait_args: aa } => if etr
                == atr && eas == aas && ea.len() == aa.len() {
                lemma_infer_new_keys(*et, *at, m);
                lemma_infer_all_new_keys(ea, aa, infer(*et, *at, m));
                assert(infer(expected, actual, m) == infer_all(ea, aa, infer(*et, *at, m)));
            },
            _ => {},
        },
        SpecType::Apply { constructor: ec, args: ea } => match actual {
            SpecType::Apply { constructor: ac, args: aa } => if ea.len() == aa.len() {
                lemma_infer_new_keys(*ec, *ac, m);
                lemma_infer_all_new_keys(ea, aa, infer(*ec, *ac, m));
                assert(infer(expected, actual, m) == infer_all(ea, aa, infer(*ec, *ac, m)));
            },
            _ => {},
        },
        SpecType::Lambda { params: ep, body: eb } => match actual {
            SpecType::Lambda { params: ap, body: ab } => if ep == ap {
                lemma_infer_new_keys(*eb, *ab, m);
                assert(infer(expected, actual, m) == infer(*eb, *ab, m));
            },
            _ => {},
        },
        _ => {
            assert(infer(expected, actual, m) == m);
        },
    }
}

/// Inference over two lists binds nothing new but generic parameters of the
/// expected types.
pub proof fn lemma_infer_all_new_keys(es: Seq<SpecType>, as_: Seq<SpecType>, m: Map<GenericParamId, SpecType>)
    ensures
        forall|k: GenericParamId| #[trigger]
            infer_all(es, as_, m).contains_key(k) ==> m.contains_key(k) || mentions_generic_in(es, k),
    decreases es,
{
    let n = if es.len() <= as_.len() {
        es.len()
    } else {
        as_.len()
    };
    if n > 0 {
        let front = es.take(n - 1);
        let inner = infer_all(front, as_.take(n - 1), m);
        lemma_infer_all_new_keys(front, as_.take(n - 1), m);
        lemma_infer_new_keys(es[n - 1], as_[n - 1], inner);
        assert(infer_all(es, as_, m) == infer(es[n - 1], as_[n - 1], inner));
        assert forall|k: GenericParamId| #[trigger] infer_all(es, as_, m).contains_key(k) implies m.contains_key(
            k,
        ) || mentions_generic_in(es, k) by {
            if !m.contains_key(k) {
                if inner.contains_key(k) {
                    let i = choose|i: int| 0 <= i < front.len() && mentions_generic(#[trigger] front[i], k);
                    assert(front[i] == es[i]);
                } else {
                    assert(infer(es[n - 1], as_[n - 1], inner).contains_key(k));
                    assert(mentions_generic(es[n - 1], k));
                }
            }
        }
    }
}

// ---------------------------------------------------------------------------
// The bindings of an owner's generic parameters.
// ---------------------------------------------------------------------------

/// Where the parameters are distinct, the owner's substitution binds each of
/// the first `n` parameters (`n` the length of the shorter list) to the
/// argument at its position, and nothing else.
pub proof fn lemma_owner_substitution_lookup(params: Seq<GenericParamDecl>, args: Seq<SpecType>)
    requires
        forall|i: int, j: int|
            0 <= i < j < params.len() && j < args.len() ==> #[trigger] params[i].id != #[trigger] params[j].id,
    ensures
        ({
            let n = if params.len() <= args.len() { params.len() } else { args.len() };
            let m = owner_substitution(params, args);
            &&& forall|i: int| 0 <= i < n ==> m.contains_key(#[trigger] params[i].id) && m[params[i].id] == args[i]
            &&& forall|k: GenericParamId| #[trigger] m.contains_key(k) ==> exists|i: int| 0 <= i < n && params[i].id == k
            &&& m.dom().finite()
            &&& m.dom().len() == n
        }),
    decreases params.len(),
{
    let n = if params.len() <= args.len() {
        params.len()
    } else {
        args.len()
    };
    let m = owner_substitution(params, args);
    if n == 0 {
        assert(m.dom() =~= Set::empty());
    } else {
        let ps = params.take(n - 1);
        let as_ = args.take(n - 1);
        lemma_owner_substitution_lookup(ps, as_);
        let prev = owner_substitution(ps, as_);
        let id = params[n - 1].id;
        assert(m == prev.insert(id, args[n - 1]));
        assert(!prev.contains_key(id)) by {
            if prev.contains_key(id) {
                let i = choose|i: int| 0 <= i < n - 1 && ps[i].id == id;
                assert(params[i].id == ps[i].id);
            }
        }
        assert forall|i: int| 0 <= i < n implies m.contains_key(#[trigger] params[i].id) && m[params[i].id]
            == args[i] by {
            if i < n - 1 {
                assert(ps[i] == params[i] && as_[i] == args[i]);
                assert(params[i].id != id);
            }
        }
        assert forall|k: GenericParamId| #[trigger] m.contains_key(k) implies exists|i: int|
            0 <= i < n && params[i].id == k by {
            if k != id {
                let i = choose|i: int| 0 <= i < n - 1 && ps[i].id == k;
                assert(params[i].id == k);
            } else {
                assert(params[n - 1].id == k);
            }
        }
        assert(m.dom() =~= prev.dom().insert(id));
    }
}

// ---------------------------------------------------------------------------
// Seeding a substitution from an impl.
// ---------------------------------------------------------------------------

/// Binding absent generics positionally keeps every binding already present.
pub proof fn lemma_bind_absent_keeps(
    decls: Seq<GenericParamDecl>,
    tys: Seq<SpecType>,
    m: Map<GenericParamId, SpecType>,
)
    ensures
        m.submap_of(bind_absent_pairs(decls, tys, m)),
    decreases decls.len(),
{
    let n = if decls.len() <= tys.len() {
        decls.len()
    } else {
        tys.len()
    };
    if n > 0 {
        lemma_bind_absent_keeps(decls.take(n - 1), tys.take(n - 1), m);
        let prev = bind_absent_pairs(decls.take(n - 1), tys.take(n - 1), m);
        if !prev.contains_key(decls[n - 1].id) {
            lemma_submap_trans(m, prev, prev.insert(decls[n - 1].id, tys[n - 1]));
        }
    }
}

/// Binding absent generics positionally adds no key but the declared
/// generics within the shorter list, and binds each such generic that was
/// unbound, at its first position, to the type at that position.
pub proof fn lemma_bind_absent_adds(
    decls: Seq<GenericParamDecl>,
    tys: Seq<SpecType>,
    m: Map<GenericParamId, SpecType>,
)
    ensures
        ({
            let r = bind_absent_pairs(decls, tys, m);
            let n = if decls.len() <= tys.len() { decls.len() as int } else { tys.len() as int };
            &&& forall|k: GenericParamId| #[trigger] r.contains_key(k) ==> m.contains_key(k) || exists|j: int|
                0 <= j < n && decls[j].id == k
            &&& forall|j: int|
                0 <= j < n && !m.contains_key(#[trigger] decls[j].id) && (forall|i: int| 0 <= i < j ==> decls[i].id
                    != decls[j].id) ==> r.contains_key(decls[j].id) && r[decls[j].id] == tys[j]
        }),
    decreases decls.len(),
{
    let n = if decls.len() <= tys.len() {
        decls.len() as int
    } else {
        tys.len() as int
    };
    let r = bind_absent_pairs(decls, tys, m);
    if n > 0 {
        let ds = decls.take(n - 1);
        let ts = tys.take(n - 1);
        lemma_bind_absent_adds(ds, ts, m);
        lemma_bind_absent_keeps(ds, ts, m);
        let prev = bind_absent_pairs(ds, ts, m);
        let d = decls[n - 1].id;
        assert forall|k: GenericParamId| #[trigger] r.contains_key(k) implies m.contains_key(k) || exists|j: int|
            0 <= j < n && decls[j].id == k by {
            if k != d || prev.contains_key(k) {
                assert(prev.contains_key(k));
                if !m.contains_key(k) {
                    let j = choose|j: int| 0 <= j < n - 1 && ds[j].id == k;
                    assert(decls[j].id == k);
                }
            } else {
                assert(decls[n - 1].id == k);
            }
        }
        assert forall|j: int|
            0 <= j < n && !m.contains_key(#[trigger] decls[j].id) && (forall|i: int| 0 <= i < j ==> decls[i].id
                != decls[j].id) implies r.contains_key(decls[j].id) && r[decls[j].id] == tys[j] by {
            if j < n - 1 {
                assert(ds[j] == decls[j] && ts[j] == tys[j]);
                assert forall|i: int| 0 <= i < j implies ds[i].id != ds[j].id by {
                    assert(ds[i] == decls[i]);
                }
                assert(prev.contains_key(decls[j].id) && prev[decls[j].id] == tys[j]);
            } else {
                if prev.contains_key(d) {
                    let i = choose|i: int| 0 <= i < n - 1 && ds[i].id == d;
                    assert(decls[i].id == d);
                    assert(false);
                }
            }
        }
    }
}

/// A struct or enum receiver carries exactly its type arguments as generic
/// arguments.
pub proof fn lemma_receiver_pattern_of_nominal(id: DefId, args: Seq<SpecType>)
    ensures
        spec_receiver_pattern(SpecType::Struct { id, args }) == args,
        spec_receiver_pattern(SpecType::Enum { id, args }) == args,
{
}

/// An exact receiver pattern accepts the receiver with the bindings of a
/// direct match; failing that, a receiver `&X` is accepted through `X` with
/// the bindings of matching `X` (auto-dereference).
pub proof fn lemma_receiver_pattern_derefs(pattern: HirImplReceiverPattern, receiver: SpecType)
    requires
        pattern is Exact,
    ensures
        try_match(pattern->Exact_0@, receiver) matches Some(m) ==> spec_receiver_pattern_substitution(
            pattern,
            receiver,
        ) == Some(m),
        receiver matches SpecType::Reference { inner, .. } ==> (try_match(pattern->Exact_0@, receiver) is None
            ==> (try_match(pattern->Exact_0@, *inner) matches Some(m) ==> spec_receiver_pattern_substitution(
            pattern,
            receiver,
        ) == Some(m))),
{
}

/// A call target permits an impl only where the impl is the one it names,
/// if any, and implements the trait it names, if any; with no target every
/// impl is permitted.
pub proof fn lemma_target_permits_impl(imp: HirImpl, target: Option<HirMethodCallTarget>)
    ensures
        target is None ==> spec_target_matches_impl(imp, target),
        target matches Some(t) ==> (t.spec_trait_id() matches Some(tr) ==> (imp.trait_id != Some(tr)
            ==> !spec_target_matches_impl(imp, target))),
        target matches Some(t) ==> (t.spec_impl_id() matches Some(i) ==> (imp.id != i ==> !spec_target_matches_impl(
            imp,
            target,
        ))),
{
}

/// Seeding from an impl: the bindings that its receiver pattern reads off
/// the receiver override those given, the other given bindings are kept,
/// the impl's type generics are bound only where still unbound (each at its
/// first position to the receiver's argument there), and no other key is
/// added.
pub proof fn lemma_seed_receiver_bindings(imp: HirImpl, recv: SpecType, m: Map<GenericParamId, SpecType>)
    ensures
        ({
            let r = spec_seed_receiver_substitution(imp, recv, m);
            match spec_receiver_pattern_substitution(imp.receiver_pattern, recv) {
                Some(rs) => {
                    &&& forall|k: GenericParamId| #[trigger] rs.contains_key(k) ==> r.contains_key(k) && r[k] == rs[k]
                    &&& forall|k: GenericParamId|
                        #[trigger] m.contains_key(k) && !rs.contains_key(k) ==> r.contains_key(k) && r[k] == m[k]
                },
                None => m.submap_of(r),
            }
        }),
        ({
            let r = spec_seed_receiver_substitution(imp, recv, m);
            let read = match spec_receiver_pattern_substitution(imp.receiver_pattern, recv) {
                Some(rs) => rs,
                None => Map::empty(),
            };
            let decls = imp.type_generics@;
            let tys = crate::matching::spec_receiver_pattern(recv);
            let n = if decls.len() <= tys.len() { decls.len() as int } else { tys.len() as int };
            &&& forall|k: GenericParamId| #[trigger] r.contains_key(k) ==> m.contains_key(k) || read.contains_key(k)
                || exists|j: int| 0 <= j < n && decls[j].id == k
            &&& forall|j: int|
                0 <= j < n && !m.contains_key(#[trigger] decls[j].id) && !read.contains_key(decls[j].id) && (forall|
                    i: int,
                | 0 <= i < j ==> decls[i].id != decls[j].id) ==> r.contains_key(decls[j].id) && r[decls[j].id] == tys[j]
        }),
{
    let m1 = match spec_receiver_pattern_substitution(imp.receiver_pattern, recv) {
        Some(rs) => m.union_prefer_right(rs),
        None => m,
    };
    lemma_bind_absent_keeps(imp.type_generics@, crate::matching::spec_receiver_pattern(recv), m1);
    lemma_bind_absent_adds(imp.type_generics@, crate::matching::spec_receiver_pattern(recv), m1);
    let r = spec_seed_receiver_substitution(imp, recv, m);
    assert(r == bind_absent_pairs(imp.type_generics@, crate::matching::spec_receiver_pattern(recv), m1));
    match spec_receiver_pattern_substitution(imp.receiver_pattern, recv) {
        Some(rs) => {
            assert forall|k: GenericParamId| #[trigger] rs.contains_key(k) implies r.contains_key(k) && r[k]
                == rs[k] by {
                assert(m1.contains_key(k) && m1[k] == rs[k]);
            }
            assert forall|k: GenericParamId| #[trigger] m.contains_key(k) && !rs.contains_key(k) implies r.contains_key(
                k,
            ) && r[k] == m[k] by {
                assert(m1.contains_key(k) && m1[k] == m[k]);
            }
        },
        None => {},
    }
}

// ---------------------------------------------------------------------------
// Reading section arguments.
// ---------------------------------------------------------------------------

/// Reading section arguments keeps the number of slots and every slot that
/// was already filled.
pub proof fn lemma_collect_keeps_filled(
    pattern: SpecType,
    actual: SpecType,
    depth: Option<u32>,
    slots: Seq<Option<SpecType>>,
)
    ensures
        collect(pattern, actual, depth, slots).1.len() == slots.len(),
        forall|i: int|
            0 <= i < slots.len() && #[trigger] slots[i] is Some ==> collect(pattern, actual, depth, slots).1[i]
                == slots[i],
    decreases pattern,
{
    if pattern is BoundVar && depth == Some(pattern->depth) {
    } else if pattern is Generic {
    } else {
        match (pattern, actual) {
            (SpecType::Struct { id: pi, args: pa }, SpecType::Struct { id: ai, args: aa }) => {
                lemma_collect_all_keeps_filled(pa, aa, depth, slots);
            },
            (SpecType::Enum { id: pi, args: pa }, SpecType::Enum { id: ai, args: aa }) => {
                lemma_collect_all_keeps_filled(pa, aa, depth, slots);
            },
            (SpecType::Apply { constructor: pc, args: pa }, SpecType::Apply { constructor: ac, args: aa }) => {
                lemma_collect_keeps_filled(*pc, *ac, depth, slots);
                let r = collect(*pc, *ac, depth, slots);
                lemma_collect_all_keeps_filled(pa, aa, depth, r.1);
            },
            (SpecType::Tuple(pa), SpecType::Tuple(aa)) => {
                lemma_collect_all_keeps_filled(pa, aa, depth, slots);
            },
            (SpecType::Function { params: pp, ret: pr, .. }, SpecType::Function { params: ap, ret: ar, .. }) => {
                lemma_collect_all_keeps_filled(pp, ap, depth, slots);
                let r = collect_all(pp, ap, depth, slots);
                lemma_collect_keeps_filled(*pr, *ar, depth, r.1);
            },
            (SpecType::Slice(pi), SpecType::Slice(ai)) => lemma_collect_keeps_filled(*pi, *ai, depth, slots),
            (SpecType::Pointer(pi), SpecType::Pointer(ai)) => lemma_collect_keeps_filled(*pi, *ai, depth, slots),
            (SpecType::Array(pi, pl), SpecType::Array(ai, al)) => lemma_collect_keeps_filled(
                *pi,
                *ai,
                depth,
                slots,
            ),
            (SpecType::Reference { mutable: pm, inner: pi }, SpecType::Reference { mutable: am, inner: ai }) => {
                lemma_collect_keeps_filled(*pi, *ai, depth, slots);
            },
            (SpecType::Lambda { params: pp, body: pb }, SpecType::Lambda { params: ap, body: ab }) => {
                lemma_collect_keeps_filled(*pb, *ab, crate::normalize::next_depth(depth), slots);
            },
            _ => {},
        }
    }
}

/// Reading section arguments over two lists keeps the number of slots and
/// every slot that was already filled.
pub proof fn lemma_collect_all_keeps_filled(
    ps: Seq<SpecType>,
    as_: Seq<SpecType>,
    depth: Option<u32>,
    slots: Seq<Option<SpecType>>,
)
    ensures
        collect_all(ps, as_, depth, slots).1.len() == slots.len(),
        forall|i: int|
            0 <= i < slots.len() && #[trigger] slots[i] is Some ==> collect_all(ps, as_, depth, slots).1[i]
                == slots[i],
    decreases ps,
{
    if ps.len() > 0 && as_.len() > 0 {
        lemma_collect_keeps_filled(ps[0], as_[0], depth, slots);
        let r = collect(ps[0], as_[0], depth, slots);
        if r.0 {
            lemma_collect_all_keeps_filled(ps.skip(1), as_.skip(1), depth, r.1);
        }
    }
}

// ---------------------------------------------------------------------------
// The bounded receiver substitution.
// ---------------------------------------------------------------------------

/// The head and arguments of a nominal type.
pub open spec fn nominal_parts(t: SpecType) -> Option<(DefId, Seq<SpecType>)> {
    match t {
        SpecType::Struct { id, args } => Some((id, args)),
        SpecType::Enum { id, args } => Some((id, args)),
        _ => None,
    }
}

/// A receiver that the expected pattern matches directly is answered with
/// that match, before any bound is consulted.
pub proof fn lemma_bounded_direct_match(
    imp: &HirImpl,
    expected: SpecType,
    actual: SpecType,
    impls: Seq<&HirImpl>,
    fuel: nat,
)
    requires
        try_match(expected, actual) is Some,
    ensures
        bounded_substitution(imp, expected, actual, impls, fuel) == try_match(expected, actual),
{
}

/// A substitution that the bounded substitution returns for a pattern that
/// is not an applied constructor turns the pattern into a type that the
/// actual type matches: both the direct match and the nominal case end by
/// checking the whole substituted pattern.
pub proof fn lemma_bounded_substitution_instantiates(
    imp: &HirImpl,
    expected: SpecType,
    actual: SpecType,
    impls: Seq<&HirImpl>,
    fuel: nat,
)
    requires
        !(expected is Apply),
        bounded_substitution(imp, expected, actual, impls, fuel) is Some,
    ensures
        spec_matches(
            subst_type(expected, bounded_substitution(imp, expected, actual, impls, fuel)->0),
            actual,
        ),
{
    let s = bounded_substitution(imp, expected, actual, impls, fuel)->0;
    match try_match(expected, actual) {
        Some(m) => {
            assert(s == m);
        },
        None => {
            assert(nominal_parts(expected) is Some && nominal_parts(actual) is Some);
            let (l, ea) = nominal_parts(expected)->0;
            let (r, aa) = nominal_parts(actual)->0;
            assert(Some(s) == crate::matching::bounded_nominal(imp, expected, actual, l, ea, r, aa, impls, fuel));
            let m = crate::matching::bounded_args(imp, ea, aa, impls, fuel, Map::empty())->0;
            assert(Some(s) == spec_type_pattern_matches(expected, actual, m));
        },
    }
}

/// A substitution that the bounded substitution returns for a struct or
/// enum constructor applied to arguments turns the pattern into a type that
/// the actual type matches, where the substituted nominal type and the actual
/// type hold no type lambda and fewer applications than the reduction budget.
pub proof fn lemma_bounded_substitution_instantiates_applied(
    imp: &HirImpl,
    id: DefId,
    flavor: NominalTypeKind,
    args: Seq<SpecType>,
    actual: SpecType,
    impls: Seq<&HirImpl>,
    fuel: nat,
)
    requires
        flavor != NominalTypeKind::Alias,
        bounded_substitution(
            imp,
            SpecType::Apply { constructor: Box::new(SpecType::Constructor { id, flavor }), args },
            actual,
            impls,
            fuel,
        ) matches Some(s) && lambda_free(subst_type(applied_nominal(id, flavor, args), s)) && lambda_free(actual)
            && applies(subst_type(applied_nominal(id, flavor, args), s)) + applies(actual) < REDUCTION_FUEL,
    ensures
        spec_matches(
            subst_type(
                SpecType::Apply { constructor: Box::new(SpecType::Constructor { id, flavor }), args },
                bounded_substitution(
                    imp,
                    SpecType::Apply { constructor: Box::new(SpecType::Constructor { id, flavor }), args },
                    actual,
                    impls,
                    fuel,
                )->0,
            ),
            actual,
        ),
{
    let expected = SpecType::Apply { constructor: Box::new(SpecType::Constructor { id, flavor }), args };
    let s = bounded_substitution(imp, expected, actual, impls, fuel)->0;
    let n = applied_nominal(id, flavor, args);
    let sn = subst_type(n, s);
    let sargs = crate::subst::subst_types(args, s);
    assert(subst_type(SpecType::Constructor { id, flavor }, s) == SpecType::Constructor { id, flavor });
    assert(subst_type(expected, s) == SpecType::Apply {
        constructor: Box::new(SpecType::Constructor { id, flavor }),
        args: sargs,
    });
    assert(sn == applied_nominal(id, flavor, sargs));
    match try_match(expected, actual) {
        Some(m) => {
            assert(s == m);
        },
        None => {
            assert(fuel > 0);
            assert(bounded_substitution(imp, n, actual, impls, (fuel - 1) as nat) == Some(s));
            lemma_bounded_substitution_instantiates(imp, n, actual, impls, (fuel - 1) as nat);
            lemma_applied_constructor_matches_as_nominal(id, flavor, sargs, actual);
            lemma_match_fuel_stable(sn, actual, false, (REDUCTION_FUEL - 1) as nat, REDUCTION_FUEL as nat);
        },
    }
}

/// Nominal types that do not match directly are refused where their heads
/// or their numbers of arguments differ.
pub proof fn lemma_bounded_nominal_mismatch(
    imp: &HirImpl,
    expected: SpecType,
    actual: SpecType,
    impls: Seq<&HirImpl>,
    fuel: nat,
)
    requires
        try_match(expected, actual) is None,
        nominal_parts(expected) matches Some((l, ea)) && nominal_parts(actual) matches Some((r, aa)) && (l
            != r || ea.len() != aa.len()),
    ensures
        bounded_substitution(imp, expected, actual, impls, fuel) is None,
{
    let (l, ea) = nominal_parts(expected)->0;
    let (r, aa) = nominal_parts(actual)->0;
    assert(crate::matching::bounded_nominal(imp, expected, actual, l, ea, r, aa, impls, fuel) is None);
}


// ---------------------------------------------------------------------------
// Matching with the roles of pattern and actual type exchanged.
// ---------------------------------------------------------------------------

/// Matching with the roles exchanged is matching the pair the other way round.
pub proof fn lemma_match_flip(x: SpecType, y: SpecType, fuel: nat)
    ensures
        match_pair(x, y, true, fuel) == match_pair(y, x, false, fuel),
        match_pair(y, x, true, fuel) == match_pair(x, y, false, fuel),
    decreases fuel, x,
{
    match reduced_pattern(y) {
        Some(ay) => if fuel > 0 {
            lemma_match_flip(x, ay, (fuel - 1) as nat);
        },
        None => {},
    }
    match reduced_pattern(x) {
        Some(ax) => if fuel > 0 {
            lemma_match_flip(ax, y, (fuel - 1) as nat);
        },
        None => {},
    }
    if reduced_pattern(x) is None || reduced_pattern(y) is None {
        match (x, y) {
            (SpecType::Struct { id: xi, args: xa }, SpecType::Struct { id: yi, args: ya }) => {
                assert forall|i: int| 0 <= i < xa.len() && i < ya.len() implies match_pair(
                    #[trigger] xa[i],
                    ya[i],
                    true,
                    fuel,
                ) == match_pair(ya[i], xa[i], false, fuel) && match_pair(ya[i], xa[i], true, fuel)
                    == match_pair(xa[i], ya[i], false, fuel) by {
                    lemma_match_flip(xa[i], ya[i], fuel);
                }
            },
            (SpecType::Enum { id: xi, args: xa }, SpecType::Enum { id: yi, args: ya }) => {
                assert forall|i: int| 0 <= i < xa.len() && i < ya.len() implies match_pair(
                    #[trigger] xa[i],
                    ya[i],
                    true,
                    fuel,
                ) == match_pair(ya[i], xa[i], false, fuel) && match_pair(ya[i], xa[i], true, fuel)
                    == match_pair(xa[i], ya[i], false, fuel) by {
                    lemma_match_flip(xa[i], ya[i], fuel);
                }
            },
            (SpecType::Tuple(xa), SpecType::Tuple(ya)) => {
                assert forall|i: int| 0 <= i < xa.len() && i < ya.len() implies match_pair(
                    #[trigger] xa[i],
                    ya[i],
                    true,
                    fuel,
                ) == match_pair(ya[i], xa[i], false, fuel) && match_pair(ya[i], xa[i], true, fuel)
                    == match_pair(xa[i], ya[i], false, fuel) by {
                    lemma_match_flip(xa[i], ya[i], fuel);
                }
            },
            (SpecType::Reference { inner: xin, .. }, SpecType::Reference { inner: yin, .. }) => {
                lemma_match_flip(*xin, *yin, fuel);
            },
            (SpecType::Function { params: xp, ret: xr, .. }, SpecType::Function { params: yp, ret: yr, .. }) => {
                assert forall|i: int| 0 <= i < xp.len() && i < yp.len() implies match_pair(
                    #[trigger] xp[i],
                    yp[i],
                    true,
                    fuel,
                ) == match_pair(yp[i], xp[i], false, fuel) && match_pair(yp[i], xp[i], true, fuel)
                    == match_pair(xp[i], yp[i], false, fuel) by {
                    lemma_match_flip(xp[i], yp[i], fuel);
                }
                lemma_match_flip(*xr, *yr, fuel);
            },
            (SpecType::Slice(xin), SpecType::Slice(yin)) => lemma_match_flip(*xin, *yin, fuel),
            (SpecType::Pointer(xin), SpecType::Pointer(yin)) => lemma_match_flip(*xin, *yin, fuel),
            (SpecType::Array(xin, _), SpecType::Array(yin, _)) => lemma_match_flip(*xin, *yin, fuel),
            (SpecType::Apply { constructor: xc, args: xa }, SpecType::Apply { constructor: yc, args: ya }) => {
                lemma_match_flip(*xc, *yc, fuel);
                assert forall|i: int| 0 <= i < xa.len() && i < ya.len() implies match_pair(
                    #[trigger] xa[i],
                    ya[i],
                    true,
                    fuel,
                ) == match_pair(ya[i], xa[i], false, fuel) && match_pair(ya[i], xa[i], true, fuel)
                    == match_pair(xa[i], ya[i], false, fuel) by {
                    lemma_match_flip(xa[i], ya[i], fuel);
                }
            },
            (SpecType::Lambda { body: xb, .. }, SpecType::Lambda { body: yb, .. }) => {
                lemma_match_flip(*xb, *yb, fuel);
            },
            (
                SpecType::Projection { ty: xt, trait_args: xa, .. },
                SpecType::Projection { ty: yt, trait_args: ya, .. },
            ) => {
                lemma_match_flip(*xt, *yt, fuel);
                assert forall|i: int| 0 <= i < xa.len() && i < ya.len() implies match_pair(
                    #[trigger] xa[i],
                    ya[i],
                    true,
                    fuel,
                ) == match_pair(ya[i], xa[i], false, fuel) && match_pair(ya[i], xa[i], true, fuel)
                    == match_pair(xa[i], ya[i], false, fuel) by {
                    lemma_match_flip(xa[i], ya[i], fuel);
                }
            },
            _ => {},
        }
    }
}

/// A function type matches a function pattern exactly when a safe callable
/// is not expected where the actual one is unsafe, the pattern's captures
/// (if any) are the actual ones and its kind admits the actual kind, the
/// parameter lists have one length and each pattern parameter is acceptable
/// where the actual one is expected (contravariance), and the results match.
pub proof fn lemma_function_match_closed_form(
    ps: Seq<SpecType>,
    r: Box<SpecType>,
    s: FunctionSafety,
    k: CallableKind,
    c: Seq<SpecCapture>,
    qs: Seq<SpecType>,
    r2: Box<SpecType>,
    s2: FunctionSafety,
    k2: CallableKind,
    c2: Seq<SpecCapture>,
)
    ensures
        spec_matches(
            SpecType::Function { params: ps, ret: r, safety: s, callable_kind: k, captures: c },
            SpecType::Function { params: qs, ret: r2, safety: s2, callable_kind: k2, captures: c2 },
        ) == (safety_admits(s, s2) && (c.len() == 0 || (callable_rank(k2) <= callable_rank(k) && c == c2))
            && ps.len() == qs.len() && (forall|j: int| 0 <= j < ps.len() ==> spec_matches(#[trigger] qs[j], ps[j]))
            && spec_matches(*r, *r2)),
{
    let f = REDUCTION_FUEL as nat;
    assert forall|j: int| 0 <= j < ps.len() && j < qs.len() implies match_pair(#[trigger] ps[j], qs[j], true, f)
        == spec_matches(qs[j], ps[j]) by {
        lemma_match_flip(ps[j], qs[j], f);
    }
}

/// More reduction fuel never turns a match into a mismatch.
pub proof fn lemma_match_more_fuel(x: SpecType, y: SpecType, flipped: bool, fuel: nat)
    ensures
        match_pair(x, y, flipped, fuel) ==> match_pair(x, y, flipped, fuel + 1),
    decreases fuel, x,
{
    let pattern = if flipped {
        y
    } else {
        x
    };
    match reduced_pattern(pattern) {
        Some(applied) => if fuel > 0 {
            if flipped {
                lemma_match_more_fuel(x, applied, true, (fuel - 1) as nat);
            } else {
                lemma_match_more_fuel(applied, y, false, (fuel - 1) as nat);
            }
        },
        None => match (x, y) {
            (SpecType::Struct { args: xa, .. }, SpecType::Struct { args: ya, .. }) => {
                assert forall|i: int| 0 <= i < xa.len() && i < ya.len() && match_pair(#[trigger] xa[i], ya[i], flipped, fuel) implies match_pair(
                    xa[i],
                    ya[i],
                    flipped,
                    fuel + 1,
                ) by {
                    lemma_match_more_fuel(xa[i], ya[i], flipped, fuel);
                }
            },
            (SpecType::Enum { args: xa, .. }, SpecType::Enum { args: ya, .. }) => {
                assert forall|i: int| 0 <= i < xa.len() && i < ya.len() && match_pair(#[trigger] xa[i], ya[i], flipped, fuel) implies match_pair(
                    xa[i],
                    ya[i],
                    flipped,
                    fuel + 1,
                ) by {
                    lemma_match_more_fuel(xa[i], ya[i], flipped, fuel);
                }
            },
            (SpecType::Tuple(xa), SpecType::Tuple(ya)) => {
                assert forall|i: int| 0 <= i < xa.len() && i < ya.len() && match_pair(#[trigger] xa[i], ya[i], flipped, fuel) implies match_pair(
                    xa[i],
                    ya[i],
                    flipped,
                    fuel + 1,
                ) by {
                    lemma_match_more_fuel(xa[i], ya[i], flipped, fuel);
                }
            },
            (SpecType::Reference { inner: xin, .. }, SpecType::Reference { inner: yin, .. }) => {
                lemma_match_more_fuel(*xin, *yin, false, fuel);
                lemma_match_more_fuel(*xin, *yin, true, fuel);
            },
            (SpecType::Function { params: xp, ret: xr, .. }, SpecType::Function { params: yp, ret: yr, .. }) => {
                assert forall|i: int| 0 <= i < xp.len() && i < yp.len() && match_pair(#[trigger] xp[i], yp[i], !flipped, fuel) implies match_pair(
                    xp[i],
                    yp[i],
                    !flipped,
                    fuel + 1,
                ) by {
                    lemma_match_more_fuel(xp[i], yp[i], !flipped, fuel);
                }
                lemma_match_more_fuel(*xr, *yr, flipped, fuel);
            },
            (SpecType::Slice(xin), SpecType::Slice(yin)) => lemma_match_more_fuel(*xin, *yin, flipped, fuel),
            (SpecType::Pointer(xin), SpecType::Pointer(yin)) => {
                lemma_match_more_fuel(*xin, *yin, false, fuel);
                lemma_match_more_fuel(*xin, *yin, true, fuel);
            },
            (SpecType::Array(xin, _), SpecType::Array(yin, _)) => lemma_match_more_fuel(
                *xin,
                *yin,
                flipped,
                fuel,
            ),
            (SpecType::Apply { constructor: xc, args: xa }, SpecType::Apply { constructor: yc, args: ya }) => {
                lemma_match_more_fuel(*xc, *yc, flipped, fuel);
                assert forall|i: int| 0 <= i < xa.len() && i < ya.len() && match_pair(#[trigger] xa[i], ya[i], flipped, fuel) implies match_pair(
                    xa[i],
                    ya[i],
                    flipped,
                    fuel + 1,
                ) by {
                    lemma_match_more_fuel(xa[i], ya[i], flipped, fuel);
                }
            },
            (SpecType::Lambda { body: xb, .. }, SpecType::Lambda { body: yb, .. }) => {
                lemma_match_more_fuel(*xb, *yb, flipped, fuel);
            },
            (
                SpecType::Projection { ty: xt, trait_args: xa, .. },
                SpecType::Projection { ty: yt, trait_args: ya, .. },
            ) => {
                lemma_match_more_fuel(*xt, *yt, flipped, fuel);
                assert forall|i: int| 0 <= i < xa.len() && i < ya.len() && match_pair(#[trigger] xa[i], ya[i], flipped, fuel) implies match_pair(
                    xa[i],
                    ya[i],
                    flipped,
                    fuel + 1,
                ) by {
                    lemma_match_more_fuel(xa[i], ya[i], flipped, fuel);
                }
            },
            _ => {},
        },
    }
}

/// The nominal type that a struct or enum constructor applied to `args` denotes.
pub open spec fn applied_nominal(id: DefId, flavor: NominalTypeKind, args: Seq<SpecType>) -> SpecType {
    if flavor == NominalTypeKind::Enum {
        SpecType::Enum { id, args }
    } else {
        SpecType::Struct { id, args }
    }
}

/// A struct or enum constructor applied to arguments is matched as the
/// nominal type it denotes, with one reduction of the budget spent; so
/// whatever it matches, the nominal type matches too.
pub proof fn lemma_applied_constructor_matches_as_nominal(
    id: DefId,
    flavor: NominalTypeKind,
    args: Seq<SpecType>,
    actual: SpecType,
)
    requires
        flavor != NominalTypeKind::Alias,
    ensures
        spec_matches(
            SpecType::Apply { constructor: Box::new(SpecType::Constructor { id, flavor }), args },
            actual,
        ) == match_pair(applied_nominal(id, flavor, args), actual, false, (REDUCTION_FUEL - 1) as nat),
        spec_matches(
            SpecType::Apply { constructor: Box::new(SpecType::Constructor { id, flavor }), args },
            actual,
        ) ==> spec_matches(applied_nominal(id, flavor, args), actual),
{
    lemma_match_more_fuel(applied_nominal(id, flavor, args), actual, false, (REDUCTION_FUEL - 1) as nat);
}

/// Whether no part of `t` is an applied constructor that reduces.
pub open spec fn reduction_free(t: SpecType) -> bool
    decreases t,
{
    &&& reduced_pattern(t) is None
    &&& match t {
        SpecType::Slice(inner) => reduction_free(*inner),
        SpecType::Array(inner, _) => reduction_free(*inner),
        SpecType::Pointer(inner) => reduction_free(*inner),
        SpecType::Reference { inner, .. } => reduction_free(*inner),
        SpecType::Tuple(ts) => forall|i: int| 0 <= i < ts.len() ==> reduction_free(#[trigger] ts[i]),
        SpecType::Struct { args, .. } => forall|i: int| 0 <= i < args.len() ==> reduction_free(#[trigger] args[i]),
        SpecType::Enum { args, .. } => forall|i: int| 0 <= i < args.len() ==> reduction_free(#[trigger] args[i]),
        SpecType::Function { params, ret, .. } => (forall|i: int|
            0 <= i < params.len() ==> reduction_free(#[trigger] params[i])) && reduction_free(*ret),
        SpecType::Projection { ty, trait_args, .. } => reduction_free(*ty) && forall|i: int|
            0 <= i < trait_args.len() ==> reduction_free(#[trigger] trait_args[i]),
        SpecType::Apply { constructor, args } => reduction_free(*constructor) && forall|i: int|
            0 <= i < args.len() ==> reduction_free(#[trigger] args[i]),
        SpecType::Lambda { body, .. } => reduction_free(*body),
        _ => true,
    }
}

/// Matching is reflexive on types without reducible constructor
/// applications: such a type matches itself, in either role.
pub proof fn lemma_match_reflexive(t: SpecType, flipped: bool, fuel: nat)
    requires
        reduction_free(t),
    ensures
        match_pair(t, t, flipped, fuel),
    decreases t,
{
    match t {
        SpecType::Slice(inner) => lemma_match_reflexive(*inner, flipped, fuel),
        SpecType::Array(inner, _) => lemma_match_reflexive(*inner, flipped, fuel),
        SpecType::Pointer(inner) => {
            lemma_match_reflexive(*inner, false, fuel);
            lemma_match_reflexive(*inner, true, fuel);
        },
        SpecType::Reference { inner, .. } => {
            lemma_match_reflexive(*inner, false, fuel);
            lemma_match_reflexive(*inner, true, fuel);
        },
        SpecType::Tuple(ts) => {
            assert forall|i: int| 0 <= i < ts.len() implies match_pair(#[trigger] ts[i], ts[i], flipped, fuel) by {
                lemma_match_reflexive(ts[i], flipped, fuel);
            }
        },
        SpecType::Struct { args, .. } => {
            assert forall|i: int| 0 <= i < args.len() implies match_pair(#[trigger] args[i], args[i], flipped, fuel) by {
                lemma_match_reflexive(args[i], flipped, fuel);
            }
        },
        SpecType::Enum { args, .. } => {
            assert forall|i: int| 0 <= i < args.len() implies match_pair(#[trigger] args[i], args[i], flipped, fuel) by {
                lemma_match_reflexive(args[i], flipped, fuel);
            }
        },
        SpecType::Function { params, ret, .. } => {
            assert forall|i: int| 0 <= i < params.len() implies match_pair(
                #[trigger] params[i],
                params[i],
                !flipped,
                fuel,
            ) by {
                lemma_match_reflexive(params[i], !flipped, fuel);
            }
            lemma_match_reflexive(*ret, flipped, fuel);
        },
        SpecType::Projection { ty, trait_args, .. } => {
            lemma_match_reflexive(*ty, flipped, fuel);
            assert forall|i: int| 0 <= i < trait_args.len() implies match_pair(
                #[trigger] trait_args[i],
                trait_args[i],
                flipped,
                fuel,
            ) by {
                lemma_match_reflexive(trait_args[i], flipped, fuel);
            }
        },
        SpecType::Apply { constructor, args } => {
            lemma_match_reflexive(*constructor, flipped, fuel);
            assert forall|i: int| 0 <= i < args.len() implies match_pair(#[trigger] args[i], args[i], flipped, fuel) by {
                lemma_match_reflexive(args[i], flipped, fuel);
            }
        },
        SpecType::Lambda { body, .. } => lemma_match_reflexive(*body, flipped, fuel),
        _ => {},
    }
}

/// Between types without reducible constructor applications, matching
/// performs no reduction, so the reduction budget does not matter.
pub proof fn lemma_match_fuel_free(x: SpecType, y: SpecType, flipped: bool, f1: nat, f2: nat)
    requires
        reduction_free(x),
        reduction_free(y),
    ensures
        match_pair(x, y, flipped, f1) == match_pair(x, y, flipped, f2),
    decreases x,
{
    match (x, y) {
        (SpecType::Struct { args: xa, .. }, SpecType::Struct { args: ya, .. }) => {
            assert forall|i: int| 0 <= i < xa.len() && i < ya.len() implies match_pair(#[trigger] xa[i], ya[i], flipped, f1)
                == match_pair(xa[i], ya[i], flipped, f2) by {
                lemma_match_fuel_free(xa[i], ya[i], flipped, f1, f2);
            }
        },
        (SpecType::Enum { args: xa, .. }, SpecType::Enum { args: ya, .. }) => {
            assert forall|i: int| 0 <= i < xa.len() && i < ya.len() implies match_pair(#[trigger] xa[i], ya[i], flipped, f1)
                == match_pair(xa[i], ya[i], flipped, f2) by {
                lemma_match_fuel_free(xa[i], ya[i], flipped, f1, f2);
            }
        },
        (SpecType::Tuple(xa), SpecType::Tuple(ya)) => {
            assert forall|i: int| 0 <= i < xa.len() && i < ya.len() implies match_pair(#[trigger] xa[i], ya[i], flipped, f1)
                == match_pair(xa[i], ya[i], flipped, f2) by {
                lemma_match_fuel_free(xa[i], ya[i], flipped, f1, f2);
            }
        },
        (SpecType::Reference { inner: xin, .. }, SpecType::Reference { inner: yin, .. }) => {
            lemma_match_fuel_free(*xin, *yin, false, f1, f2);
            lemma_match_fuel_free(*xin, *yin, true, f1, f2);
            lemma_match_fuel_free(*xin, *yin, flipped, f1, f2);
        },
        (SpecType::Function { params: xp, ret: xr, .. }, SpecType::Function { params: yp, ret: yr, .. }) => {
            assert forall|i: int| 0 <= i < xp.len() && i < yp.len() implies match_pair(#[trigger] xp[i], yp[i], !flipped, f1)
                == match_pair(xp[i], yp[i], !flipped, f2) by {
                lemma_match_fuel_free(xp[i], yp[i], !flipped, f1, f2);
            }
            lemma_match_fuel_free(*xr, *yr, flipped, f1, f2);
        },
        (SpecType::Slice(xin), SpecType::Slice(yin)) => lemma_match_fuel_free(*xin, *yin, flipped, f1, f2),
        (SpecType::Pointer(xin), SpecType::Pointer(yin)) => {
            lemma_match_fuel_free(*xin, *yin, false, f1, f2);
            lemma_match_fuel_free(*xin, *yin, true, f1, f2);
        },
        (SpecType::Array(xin, _), SpecType::Array(yin, _)) => lemma_match_fuel_free(*xin, *yin, flipped, f1, f2),
        (SpecType::Apply { constructor: xc, args: xa }, SpecType::Apply { constructor: yc, args: ya }) => {
            lemma_match_fuel_free(*xc, *yc, flipped, f1, f2);
            assert forall|i: int| 0 <= i < xa.len() && i < ya.len() implies match_pair(#[trigger] xa[i], ya[i], flipped, f1)
                == match_pair(xa[i], ya[i], flipped, f2) by {
                lemma_match_fuel_free(xa[i], ya[i], flipped, f1, f2);
            }
        },
        (SpecType::Lambda { body: xb, .. }, SpecType::Lambda { body: yb, .. }) => {
            lemma_match_fuel_free(*xb, *yb, flipped, f1, f2);
        },
        (
            SpecType::Projection { ty: xt, trait_args: xa, .. },
            SpecType::Projection { ty: yt, trait_args: ya, .. },
        ) => {
            lemma_match_fuel_free(*xt, *yt, flipped, f1, f2);
            assert forall|i: int| 0 <= i < xa.len() && i < ya.len() implies match_pair(#[trigger] xa[i], ya[i], flipped, f1)
                == match_pair(xa[i], ya[i], flipped, f2) by {
                lemma_match_fuel_free(xa[i], ya[i], flipped, f1, f2);
            }
        },
        _ => {},
    }
}

/// A struct or enum constructor applied to arguments matches exactly what
/// the nominal type it denotes matches, in both directions, where neither
/// the arguments nor the actual type hold a reducible constructor
/// application.
pub proof fn lemma_applied_constructor_equals_nominal(
    id: DefId,
    flavor: NominalTypeKind,
    args: Seq<SpecType>,
    actual: SpecType,
)
    requires
        flavor != NominalTypeKind::Alias,
        forall|i: int| 0 <= i < args.len() ==> reduction_free(#[trigger] args[i]),
        reduction_free(actual),
    ensures
        spec_matches(
            SpecType::Apply { constructor: Box::new(SpecType::Constructor { id, flavor }), args },
            actual,
        ) == spec_matches(applied_nominal(id, flavor, args), actual),
{
    lemma_applied_constructor_matches_as_nominal(id, flavor, args, actual);
    let n = applied_nominal(id, flavor, args);
    assert(reduction_free(n));
    lemma_match_fuel_free(n, actual, false, (REDUCTION_FUEL - 1) as nat, REDUCTION_FUEL as nat);
}

/// The number of applications in a type.
pub open spec fn applies(t: SpecType) -> nat
    decreases t,
{
    match t {
        SpecType::Apply { constructor, args } => 1 + applies(*constructor) + applies_all(args),
        SpecType::Slice(inner) => applies(*inner),
        SpecType::Array(inner, _) => applies(*inner),
        SpecType::Pointer(inner) => applies(*inner),
        SpecType::Reference { inner, .. } => applies(*inner),
        SpecType::Tuple(ts) => applies_all(ts),
        SpecType::Struct { args, .. } => applies_all(args),
        SpecType::Enum { args, .. } => applies_all(args),
        SpecType::Function { params, ret, .. } => applies_all(params) + applies(*ret),
        SpecType::Projection { ty, trait_args, .. } => applies(*ty) + applies_all(trait_args),
        SpecType::Lambda { body, .. } => applies(*body),
        _ => 0,
    }
}

/// The number of applications in a list of types.
pub open spec fn applies_all(ts: Seq<SpecType>) -> nat
    decreases ts,
{
    if ts.len() == 0 {
        0
    } else {
        applies_all(ts.subrange(0, ts.len() - 1)) + applies(ts[ts.len() - 1])
    }
}

/// Whether no part of `t` is a type lambda.
pub open spec fn lambda_free(t: SpecType) -> bool
    decreases t,
{
    match t {
        SpecType::Lambda { .. } => false,
        SpecType::Slice(inner) => lambda_free(*inner),
        SpecType::Array(inner, _) => lambda_free(*inner),
        SpecType::Pointer(inner) => lambda_free(*inner),
        SpecType::Reference { inner, .. } => lambda_free(*inner),
        SpecType::Tuple(ts) => forall|i: int| 0 <= i < ts.len() ==> lambda_free(#[trigger] ts[i]),
        SpecType::Struct { args, .. } => forall|i: int| 0 <= i < args.len() ==> lambda_free(#[trigger] args[i]),
        SpecType::Enum { args, .. } => forall|i: int| 0 <= i < args.len() ==> lambda_free(#[trigger] args[i]),
        SpecType::Function { params, ret, .. } => (forall|i: int|
            0 <= i < params.len() ==> lambda_free(#[trigger] params[i])) && lambda_free(*ret),
        SpecType::Projection { ty, trait_args, .. } => lambda_free(*ty) && forall|i: int|
            0 <= i < trait_args.len() ==> lambda_free(#[trigger] trait_args[i]),
        SpecType::Apply { constructor, args } => lambda_free(*constructor) && forall|i: int|
            0 <= i < args.len() ==> lambda_free(#[trigger] args[i]),
        _ => true,
    }
}

/// No type of a list has more applications than the list.
proof fn lemma_applies_all_bounds(ts: Seq<SpecType>)
    ensures
        forall|i: int| 0 <= i < ts.len() ==> applies(#[trigger] ts[i]) <= applies_all(ts),
    decreases ts.len(),
{
    if ts.len() > 0 {
        let init = ts.subrange(0, ts.len() - 1);
        lemma_applies_all_bounds(init);
        assert forall|i: int| 0 <= i < ts.len() implies applies(#[trigger] ts[i]) <= applies_all(ts) by {
            if i < ts.len() - 1 {
                assert(init[i] == ts[i]);
            }
        }
    }
}

/// Reducing a lambda-free application removes one application and leaves
/// a lambda-free type.
proof fn lemma_reduction_removes_an_apply(t: SpecType)
    requires
        lambda_free(t),
        reduced_pattern(t) is Some,
    ensures
        applies(reduced_pattern(t)->0) + 1 == applies(t),
        lambda_free(reduced_pattern(t)->0),
{
    if let SpecType::Apply { constructor, args } = t {
        assert(lambda_free(*constructor));
        match *constructor {
            SpecType::Constructor { id, flavor } => {
                assert(applies(*constructor) == 0);
                assert(flavor != NominalTypeKind::Alias);
            },
            SpecType::Lambda { .. } => {
                assert(false);
            },
            _ => {
                assert(reduced_pattern(t) is None);
            },
        }
    }
}

/// Between lambda-free types, a budget of reductions at least their number
/// of applications is as good as any larger one.
pub proof fn lemma_match_fuel_stable(x: SpecType, y: SpecType, flipped: bool, f1: nat, f2: nat)
    requires
        lambda_free(x),
        lambda_free(y),
        applies(x) + applies(y) <= f1,
        applies(x) + applies(y) <= f2,
    ensures
        match_pair(x, y, flipped, f1) == match_pair(x, y, flipped, f2),
    decreases applies(x) + applies(y), x,
{
    let pattern = if flipped {
        y
    } else {
        x
    };
    match reduced_pattern(pattern) {
        Some(applied) => {
            lemma_reduction_removes_an_apply(pattern);
            if flipped {
                lemma_match_fuel_stable(x, applied, true, (f1 - 1) as nat, (f2 - 1) as nat);
            } else {
                lemma_match_fuel_stable(applied, y, false, (f1 - 1) as nat, (f2 - 1) as nat);
            }
        },
        None => match (x, y) {
            (SpecType::Struct { args: xa, .. }, SpecType::Struct { args: ya, .. }) => {
                lemma_applies_all_bounds(xa);
                lemma_applies_all_bounds(ya);
                assert forall|i: int| 0 <= i < xa.len() && i < ya.len() implies match_pair(#[trigger] xa[i], ya[i], flipped, f1)
                    == match_pair(xa[i], ya[i], flipped, f2) by {
                    lemma_match_fuel_stable(xa[i], ya[i], flipped, f1, f2);
                }
            },
            (SpecType::Enum { args: xa, .. }, SpecType::Enum { args: ya, .. }) => {
                lemma_applies_all_bounds(xa);
                lemma_applies_all_bounds(ya);
                assert forall|i: int| 0 <= i < xa.len() && i < ya.len() implies match_pair(#[trigger] xa[i], ya[i], flipped, f1)
                    == match_pair(xa[i], ya[i], flipped, f2) by {
                    lemma_match_fuel_stable(xa[i], ya[i], flipped, f1, f2);
                }
            },
            (SpecType::Tuple(xa), SpecType::Tuple(ya)) => {
                lemma_applies_all_bounds(xa);
                lemma_applies_all_bounds(ya);
                assert forall|i: int| 0 <= i < xa.len() && i < ya.len() implies match_pair(#[trigger] xa[i], ya[i], flipped, f1)
                    == match_pair(xa[i], ya[i], flipped, f2) by {
                    lemma_match_fuel_stable(xa[i], ya[i], flipped, f1, f2);
                }
            },
            (SpecType::Reference { inner: xin, .. }, SpecType::Reference { inner: yin, .. }) => {
                lemma_match_fuel_stable(*xin, *yin, false, f1, f2);
                lemma_match_fuel_stable(*xin, *yin, true, f1, f2);
                lemma_match_fuel_stable(*xin, *yin, flipped, f1, f2);
            },
            (SpecType::Function { params: xp, ret: xr, .. }, SpecType::Function { params: yp, ret: yr, .. }) => {
                lemma_applies_all_bounds(xp);
                lemma_applies_all_bounds(yp);
                assert forall|i: int| 0 <= i < xp.len() && i < yp.len() implies match_pair(#[trigger] xp[i], yp[i], !flipped, f1)
                    == match_pair(xp[i], yp[i], !flipped, f2) by {
                    lemma_match_fuel_stable(xp[i], yp[i], !flipped, f1, f2);
                }
                lemma_match_fuel_stable(*xr, *yr, flipped, f1, f2);
            },
            (SpecType::Slice(xin), SpecType::Slice(yin)) => lemma_match_fuel_stable(*xin, *yin, flipped, f1, f2),
            (SpecType::Pointer(xin), SpecType::Pointer(yin)) => {
                lemma_match_fuel_stable(*xin, *yin, false, f1, f2);
                lemma_match_fuel_stable(*xin, *yin, true, f1, f2);
            },
            (SpecType::Array(xin, _), SpecType::Array(yin, _)) => lemma_match_fuel_stable(*xin, *yin, flipped, f1, f2),
            (SpecType::Apply { constructor: xc, args: xa }, SpecType::Apply { constructor: yc, args: ya }) => {
                lemma_match_fuel_stable(*xc, *yc, flipped, f1, f2);
                lemma_applies_all_bounds(xa);
                lemma_applies_all_bounds(ya);
                assert forall|i: int| 0 <= i < xa.len() && i < ya.len() implies match_pair(#[trigger] xa[i], ya[i], flipped, f1)
                    == match_pair(xa[i], ya[i], flipped, f2) by {
                    lemma_match_fuel_stable(xa[i], ya[i], flipped, f1, f2);
                }
            },
            (
                SpecType::Projection { ty: xt, trait_args: xa, .. },
                SpecType::Projection { ty: yt, trait_args: ya, .. },
            ) => {
                lemma_match_fuel_stable(*xt, *yt, flipped, f1, f2);
                lemma_applies_all_bounds(xa);
                lemma_applies_all_bounds(ya);
                assert forall|i: int| 0 <= i < xa.len() && i < ya.len() implies match_pair(#[trigger] xa[i], ya[i], flipped, f1)
                    == match_pair(xa[i], ya[i], flipped, f2) by {
                    lemma_match_fuel_stable(xa[i], ya[i], flipped, f1, f2);
                }
            },
            _ => {},
        },
    }
}

/// A struct or enum constructor applied to arguments matches exactly what
/// the nominal type it denotes matches, in both directions, where neither
/// the arguments nor the actual type hold a type lambda and together they
/// hold fewer applications than the reduction budget.
pub proof fn lemma_applied_constructor_equals_nominal_without_lambdas(
    id: DefId,
    flavor: NominalTypeKind,
    args: Seq<SpecType>,
    actual: SpecType,
)
    requires
        flavor != NominalTypeKind::Alias,
        forall|i: int| 0 <= i < args.len() ==> lambda_free(#[trigger] args[i]),
        lambda_free(actual),
        applies_all(args) + applies(actual) < REDUCTION_FUEL,
    ensures
        spec_matches(
            SpecType::Apply { constructor: Box::new(SpecType::Constructor { id, flavor }), args },
            actual,
        ) == spec_matches(applied_nominal(id, flavor, args), actual),
{
    lemma_applied_constructor_matches_as_nominal(id, flavor, args, actual);
    let n = applied_nominal(id, flavor, args);
    assert(lambda_free(n));
    assert(applies(n) == applies_all(args));
    lemma_match_fuel_stable(n, actual, false, (REDUCTION_FUEL - 1) as nat, REDUCTION_FUEL as nat);
}

/// A type without reducible constructor applications is acceptable where it
/// is itself expected.
pub proof fn lemma_matches_itself(t: SpecType)
    requires
        reduction_free(t),
    ensures
        spec_matches(t, t),
{
    lemma_match_reflexive(t, false, REDUCTION_FUEL as nat);
}

} // verus!
