use vstd::prelude::*;
use crate::hir::{
    GenericParamDecl, HirImpl, HirImplReceiverPattern, HirMethodCallTarget, ParamBounds, TraitBound,
};
use crate::ids::{DefId, GenericParamId};
use crate::normalize::{
    apply_constructor_pattern, apply_type_lambda, next_depth, spec_apply_constructor_pattern,
    spec_apply_type_lambda,
};
use crate::matching_laws::{lemma_infer_keeps_bindings, lemma_infer_new_keys, mentions_generic};
use crate::subst::{subst_type, Substitution};
use crate::types::{
    clone_types,
    callable_rank, captures_eq, clone_type, kinds_eq, type_eq, view_captures, view_type, view_types,
    FunctionSafety, NominalTypeKind, SpecType, Type,
};

verus! {

/// How many nested constructor reductions one match may perform; a match
/// that would need more is refused.
pub const REDUCTION_FUEL: u64 = 0xffff_ffff_ffff_ffff;

/// The type a pattern denotes after one reduction of an applied constructor.
pub open spec fn reduced_pattern(pattern: SpecType) -> Option<SpecType> {
    match pattern {
        SpecType::Apply { constructor, args } => spec_apply_constructor_pattern(*constructor, args),
        _ => None,
    }
}

/// A safe callable may stand where an unsafe one is expected, not the reverse.
pub open spec fn safety_admits(expected: FunctionSafety, actual: FunctionSafety) -> bool {
    actual != FunctionSafety::Unsafe || expected != FunctionSafety::Safe
}

/// Whether a pattern matches an actual type, where `x` is the pattern and `y`
/// the actual type unless `flipped`, in which case the roles are swapped
/// (function parameters are matched contravariantly). `fuel` bounds the number
/// of nested reductions of applied constructors in the pattern.
pub open spec fn match_pair(x: SpecType, y: SpecType, flipped: bool, fuel: nat) -> bool
    decreases fuel, x,
{
    let pattern = if flipped {
        y
    } else {
        x
    };
    match reduced_pattern(pattern) {
        Some(applied) => if fuel == 0 {
            false
        } else if flipped {
            match_pair(x, applied, true, (fuel - 1) as nat)
        } else {
            match_pair(applied, y, false, (fuel - 1) as nat)
        },
        None => match (x, y) {
            (SpecType::Struct { id: xi, args: xa }, SpecType::Struct { id: yi, args: ya }) => {
                &&& xa.len() == ya.len()
                &&& xi == yi
                &&& forall|i: int| 0 <= i < xa.len() ==> match_pair(xa[i], ya[i], flipped, fuel)
            },
            (SpecType::Enum { id: xi, args: xa }, SpecType::Enum { id: yi, args: ya }) => {
                &&& xa.len() == ya.len()
                &&& xi == yi
                &&& forall|i: int| 0 <= i < xa.len() ==> match_pair(xa[i], ya[i], flipped, fuel)
            },
            (SpecType::Tuple(xa), SpecType::Tuple(ya)) => {
                &&& xa.len() == ya.len()
                &&& forall|i: int| 0 <= i < xa.len() ==> match_pair(xa[i], ya[i], flipped, fuel)
            },
            (
                SpecType::Reference { mutable: xm, inner: xin },
                SpecType::Reference { mutable: ym, inner: yin },
            ) => {
                &&& xm == ym
                &&& if xm {
                    match_pair(*xin, *yin, false, fuel) && match_pair(*xin, *yin, true, fuel)
                } else {
                    match_pair(*xin, *yin, flipped, fuel)
                }
            },
            (
                SpecType::Function {
                    params: xp,
                    ret: xr,
                    safety: xs,
                    callable_kind: xk,
                    captures: xc,
                },
                SpecType::Function {
                    params: yp,
                    ret: yr,
                    safety: ys,
                    callable_kind: yk,
                    captures: yc,
                },
            ) => {
                let expected_safety = if flipped {
                    ys
                } else {
                    xs
                };
                let actual_safety = if flipped {
                    xs
                } else {
                    ys
                };
                let expected_kind = if flipped {
                    yk
                } else {
                    xk
                };
                let actual_kind = if flipped {
                    xk
                } else {
                    yk
                };
                let expected_captures = if flipped {
                    yc
                } else {
                    xc
                };
                let actual_captures = if flipped {
                    xc
                } else {
                    yc
                };
                &&& safety_admits(expected_safety, actual_safety)
                &&& (expected_captures.len() == 0 || callable_rank(actual_kind) <= callable_rank(
                    expected_kind,
                ))
                &&& (expected_captures.len() == 0 || expected_captures == actual_captures)
                &&& xp.len() == yp.len()
                &&& forall|i: int| 0 <= i < xp.len() ==> match_pair(xp[i], yp[i], !flipped, fuel)
                &&& match_pair(*xr, *yr, flipped, fuel)
            },
            (SpecType::Slice(xin), SpecType::Slice(yin)) => match_pair(*xin, *yin, flipped, fuel),
            (SpecType::Pointer(xin), SpecType::Pointer(yin)) => {
                match_pair(*xin, *yin, false, fuel) && match_pair(*xin, *yin, true, fuel)
            },
            (SpecType::Array(xin, xl), SpecType::Array(yin, yl)) => {
                xl == yl && match_pair(*xin, *yin, flipped, fuel)
            },
            (
                SpecType::Constructor { id: xi, flavor: xf },
                SpecType::Constructor { id: yi, flavor: yf },
            ) => xi == yi && xf == yf,
            (
                SpecType::Apply { constructor: xcon, args: xa },
                SpecType::Apply { constructor: ycon, args: ya },
            ) => {
                &&& xa.len() == ya.len()
                &&& match_pair(*xcon, *ycon, flipped, fuel)
                &&& forall|i: int| 0 <= i < xa.len() ==> match_pair(xa[i], ya[i], flipped, fuel)
            },
            (SpecType::Lambda { params: xp, body: xb }, SpecType::Lambda { params: yp, body: yb }) => {
                xp == yp && match_pair(*xb, *yb, flipped, fuel)
            },
            (
                SpecType::Projection { ty: xt, trait_id: xtr, assoc_type: xas, trait_args: xa },
                SpecType::Projection { ty: yt, trait_id: ytr, assoc_type: yas, trait_args: ya },
            ) => {
                &&& xtr == ytr
                &&& xas == yas
                &&& xa.len() == ya.len()
                &&& match_pair(*xt, *yt, flipped, fuel)
                &&& forall|i: int| 0 <= i < xa.len() ==> match_pair(xa[i], ya[i], flipped, fuel)
            },
            _ => x == y,
        },
    }
}

/// Whether `actual` is acceptable where `pattern` (whose generics are already
/// substituted) is expected.
pub open spec fn spec_matches(pattern: SpecType, actual: SpecType) -> bool {
    match_pair(pattern, actual, false, REDUCTION_FUEL as nat)
}

fn match_pair_exec(x: &Type, y: &Type, flipped: bool, fuel: u64) -> (r: bool)
    ensures
        r == match_pair(x@, y@, flipped, fuel as nat),
    decreases fuel, x,
{
    let pattern = if flipped {
        y
    } else {
        x
    };
    if let Type::Apply { constructor, args } = pattern {
        if let Some(applied) = apply_constructor_pattern(constructor, args) {
            if fuel == 0 {
                return false;
            }
            if flipped {
                return match_pair_exec(x, &applied, true, fuel - 1);
            } else {
                return match_pair_exec(&applied, y, false, fuel - 1);
            }
        }
    }
    assert(reduced_pattern(if flipped {
        y@
    } else {
        x@
    }) is None);
    match (x, y) {
        (Type::Struct { id: xi, args: xa }, Type::Struct { id: yi, args: ya }) => {
            let r = xa.len() == ya.len() && *xi == *yi && all_pairs_match(xa, ya, flipped, fuel);
            assert(x@ == SpecType::Struct { id: *xi, args: view_types(xa@) });
            assert(y@ == SpecType::Struct { id: *yi, args: view_types(ya@) });
            assert(r == match_pair(x@, y@, flipped, fuel as nat));
            r
        },
        (Type::Enum { id: xi, args: xa }, Type::Enum { id: yi, args: ya }) => {
            assert(x@ == SpecType::Enum { id: *xi, args: view_types(xa@) });
            assert(y@ == SpecType::Enum { id: *yi, args: view_types(ya@) });
            let r = xa.len() == ya.len() && *xi == *yi && all_pairs_match(xa, ya, flipped, fuel);
            assert(r == match_pair(x@, y@, flipped, fuel as nat));
            r
        },
        (Type::Tuple(xa), Type::Tuple(ya)) => {
            assert(x@ == SpecType::Tuple(view_types(xa@)));
            assert(y@ == SpecType::Tuple(view_types(ya@)));
            let r = xa.len() == ya.len() && all_pairs_match(xa, ya, flipped, fuel);
            assert(r == match_pair(x@, y@, flipped, fuel as nat));
            r
        },
        (Type::Reference { mutable: xm, inner: xin }, Type::Reference { mutable: ym, inner: yin }) => {
            let r = *xm == *ym && if *xm {
                match_pair_exec(xin, yin, false, fuel) && match_pair_exec(xin, yin, true, fuel)
            } else {
                match_pair_exec(xin, yin, flipped, fuel)
            };
            assert(r == match_pair(x@, y@, flipped, fuel as nat));
            r
        },
        (
            Type::Function { params: xp, ret: xr, safety: xs, callable_kind: xk, captures: xc },
            Type::Function { params: yp, ret: yr, safety: ys, callable_kind: yk, captures: yc },
        ) => {
            assert(x@ == SpecType::Function {
                params: view_types(xp@),
                ret: Box::new(xr@),
                safety: *xs,
                callable_kind: *xk,
                captures: view_captures(xc@),
            });
            assert(y@ == SpecType::Function {
                params: view_types(yp@),
                ret: Box::new(yr@),
                safety: *ys,
                callable_kind: *yk,
                captures: view_captures(yc@),
            });
            assert(view_captures(xc@).len() == xc@.len());
            assert(view_captures(yc@).len() == yc@.len());
            let (expected_safety, actual_safety) = if flipped {
                (ys, xs)
            } else {
                (xs, ys)
            };
            let (expected_kind, actual_kind) = if flipped {
                (yk, xk)
            } else {
                (xk, yk)
            };
            let (expected_captures, actual_captures) = if flipped {
                (yc, xc)
            } else {
                (xc, yc)
            };
            let safety_matches = !(*actual_safety == FunctionSafety::Unsafe) || !(*expected_safety
                == FunctionSafety::Safe);
            let r = safety_matches && (expected_captures.len() == 0 || actual_kind.at_most(expected_kind))
                && (expected_captures.len() == 0 || captures_eq(expected_captures, actual_captures))
                && xp.len() == yp.len() && all_pairs_match(xp, yp, !flipped, fuel)
                && match_pair_exec(xr, yr, flipped, fuel);
            assert(r == match_pair(x@, y@, flipped, fuel as nat));
            r
        },
        (Type::Slice(xin), Type::Slice(yin)) => match_pair_exec(xin, yin, flipped, fuel),
        (Type::Pointer(xin), Type::Pointer(yin)) => {
            match_pair_exec(xin, yin, false, fuel) && match_pair_exec(xin, yin, true, fuel)
        },
        (Type::Array(xin, xl), Type::Array(yin, yl)) => {
            *xl == *yl && match_pair_exec(xin, yin, flipped, fuel)
        },
        (Type::Constructor { id: xi, flavor: xf }, Type::Constructor { id: yi, flavor: yf }) => {
            *xi == *yi && *xf == *yf
        },
        (Type::Apply { constructor: xcon, args: xa }, Type::Apply { constructor: ycon, args: ya }) => {
            assert(x@ == SpecType::Apply { constructor: Box::new(xcon@), args: view_types(xa@) });
            assert(y@ == SpecType::Apply { constructor: Box::new(ycon@), args: view_types(ya@) });
            let r = xa.len() == ya.len() && match_pair_exec(xcon, ycon, flipped, fuel) && all_pairs_match(
                xa,
                ya,
                flipped,
                fuel,
            );
            assert(r == match_pair(x@, y@, flipped, fuel as nat));
            r
        },
        (Type::Lambda { params: xp, body: xb }, Type::Lambda { params: yp, body: yb }) => {
            kinds_eq(xp, yp) && match_pair_exec(xb, yb, flipped, fuel)
        },
        (
            Type::Projection { ty: xt, trait_id: xtr, assoc_type: xas, trait_args: xa },
            Type::Projection { ty: yt, trait_id: ytr, assoc_type: yas, trait_args: ya },
        ) => {
            assert(x@ == SpecType::Projection { ty: Box::new(xt@), trait_id: *xtr, assoc_type: *xas, trait_args: view_types(xa@) });
            assert(y@ == SpecType::Projection { ty: Box::new(yt@), trait_id: *ytr, assoc_type: *yas, trait_args: view_types(ya@) });
            let r = *xtr == *ytr && *xas == *yas && xa.len() == ya.len() && match_pair_exec(
                xt,
                yt,
                flipped,
                fuel,
            ) && all_pairs_match(xa, ya, flipped, fuel);
            assert(r == match_pair(x@, y@, flipped, fuel as nat));
            r
        },
        _ => {
            let r = type_eq(x, y);
            assert(r == match_pair(x@, y@, flipped, fuel as nat));
            r
        },
    }
}

fn all_pairs_match(xs: &Vec<Type>, ys: &Vec<Type>, flipped: bool, fuel: u64) -> (r: bool)
    requires
        xs@.len() == ys@.len(),
    ensures
        r == forall|i: int|
            0 <= i < xs@.len() ==> match_pair(
                #[trigger] view_types(xs@)[i],
                view_types(ys@)[i],
                flipped,
                fuel as nat,
            ),
    decreases fuel, xs,
{
    let mut i: usize = 0;
    while i < xs.len()
        invariant
            i <= xs@.len(),
            xs@.len() == ys@.len(),
            forall|j: int|
                0 <= j < i ==> match_pair(
                    #[trigger] view_types(xs@)[j],
                    view_types(ys@)[j],
                    flipped,
                    fuel as nat,
                ),
        decreases xs.len() - i,
    {
        if !match_pair_exec(&xs[i], &ys[i], flipped, fuel) {
            assert(!match_pair(view_types(xs@)[i as int], view_types(ys@)[i as int], flipped, fuel as nat));
            return false;
        }
        i = i + 1;
    }
    true
}

/// Whether `actual` is acceptable where `pattern`, whose generics are already
/// substituted, is expected: structurally, with safe callables admitted for
/// unsafe ones, function parameters contravariant, and mutable references and
/// pointers invariant.
pub fn type_pattern_matches_after_subst(pattern: &Type, actual: &Type) -> (r: bool)
    ensures
        r == spec_matches(pattern@, actual@),
{
    match_pair_exec(pattern, actual, false, REDUCTION_FUEL)
}

/// The bindings that reading `actual` against `expected` adds to `m`: each
/// generic parameter of `expected` that `m` does not bind yet is bound to the
/// part of `actual` at the same position, where the shapes agree.
pub open spec fn infer(expected: SpecType, actual: SpecType, m: Map<GenericParamId, SpecType>) -> Map<
    GenericParamId,
    SpecType,
>
    decreases expected,
{
    match expected {
        SpecType::Generic(p) => if m.contains_key(p) {
            m
        } else {
            m.insert(p, actual)
        },
        SpecType::Slice(ei) => match actual {
            SpecType::Slice(ai) => infer(*ei, *ai, m),
            _ => m,
        },
        SpecType::Array(ei, el) => match actual {
            SpecType::Array(ai, al) => if el == al {
                infer(*ei, *ai, m)
            } else {
                m
            },
            _ => m,
        },
        SpecType::Tuple(es) => match actual {
            SpecType::Tuple(as_) => infer_all(es, as_, m),
            _ => m,
        },
        SpecType::Function { params: ep, ret: er, .. } => match actual {
            SpecType::Function { params: ap, ret: ar, .. } => infer(*er, *ar, infer_all(ep, ap, m)),
            _ => m,
        },
        SpecType::Struct { id: ei, args: ea } => match actual {
            SpecType::Struct { id: ai, args: aa } => if ea.len() == aa.len() && ei == ai {
                infer_all(ea, aa, m)
            } else {
                m
            },
            _ => m,
        },
        SpecType::Enum { id: ei, args: ea } => match actual {
            SpecType::Enum { id: ai, args: aa } => if ea.len() == aa.len() && ei == ai {
                infer_all(ea, aa, m)
            } else {
                m
            },
            _ => m,
        },
        SpecType::Reference { mutable: em, inner: ei } => match actual {
            SpecType::Reference { mutable: am, inner: ai } => if em == am {
                infer(*ei, *ai, m)
            } else {
                m
            },
            _ => m,
        },
        SpecType::Pointer(ei) => match actual {
            SpecType::Pointer(ai) => infer(*ei, *ai, m),
            _ => m,
        },
        SpecType::Projection { ty: et, trait_id: etr, assoc_type: eas, trait_args: ea } => match actual {
            SpecType::Projection { ty: at, trait_id: atr, assoc_type: aas, trait_args: aa } => if etr
                == atr && eas == aas && ea.len() == aa.len() {
                infer_all(ea, aa, infer(*et, *at, m))
            } else {
                m
            },
            _ => m,
        },
        SpecType::Apply { constructor: ec, args: ea } => match actual {
            SpecType::Apply { constructor: ac, args: aa } => if ea.len() == aa.len() {
                infer_all(ea, aa, infer(*ec, *ac, m))
            } else {
                m
            },
            _ => m,
        },
        SpecType::Lambda { params: ep, body: eb } => match actual {
            SpecType::Lambda { params: ap, body: ab } => if ep == ap {
                infer(*eb, *ab, m)
            } else {
                m
            },
            _ => m,
        },
        _ => m,
    }
}

/// [`infer`] over the pairs of two lists, left to right, as far as the shorter one goes.
pub open spec fn infer_all(
    es: Seq<SpecType>,
    as_: Seq<SpecType>,
    m: Map<GenericParamId, SpecType>,
) -> Map<GenericParamId, SpecType>
    decreases es,
{
    let n = if es.len() <= as_.len() {
        es.len()
    } else {
        as_.len()
    };
    if n == 0 {
        m
    } else {
        infer(es[n - 1], as_[n - 1], infer_all(es.take(n - 1), as_.take(n - 1), m))
    }
}

/// Binds, in `subst`, the generic parameters of `expected` that it does not
/// bind yet, by reading them off `actual`.
pub fn infer_generic_subst_from_types(expected: &Type, actual: &Type, subst: &mut Substitution)
    requires
        old(subst).wf(),
    ensures
        final(subst).wf(),
        final(subst)@ == infer(expected@, actual@, old(subst)@),
        old(subst)@.submap_of(final(subst)@),
        forall|k: GenericParamId| #[trigger]
            final(subst)@.contains_key(k) ==> old(subst)@.contains_key(k) || mentions_generic(expected@, k),
        expected@ matches SpecType::Generic(p) ==> final(subst)@ == (if old(subst)@.contains_key(p) {
            old(subst)@
        } else {
            old(subst)@.insert(p, actual@)
        }),
    decreases expected,
{
    proof {
        lemma_infer_keeps_bindings(expected@, actual@, subst@);
        lemma_infer_new_keys(expected@, actual@, subst@);
    }
    match expected {
        Type::Generic(param) => {
            subst.insert_if_absent(*param, clone_type(actual));
        },
        Type::Slice(ei) => {
            if let Type::Slice(ai) = actual {
                infer_generic_subst_from_types(ei, ai, subst);
            }
        },
        Type::Array(ei, el) => {
            if let Type::Array(ai, al) = actual {
                if *el == *al {
                    infer_generic_subst_from_types(ei, ai, subst);
                }
            }
        },
        Type::Tuple(es) => {
            if let Type::Tuple(as_) = actual {
                infer_pairs(es, as_, subst);
            }
        },
        Type::Function { params: ep, ret: er, .. } => {
            if let Type::Function { params: ap, ret: ar, .. } = actual {
                infer_pairs(ep, ap, subst);
                infer_generic_subst_from_types(er, ar, subst);
            }
        },
        Type::Struct { id: ei, args: ea } => {
            if let Type::Struct { id: ai, args: aa } = actual {
                if ea.len() == aa.len() && *ei == *ai {
                    infer_pairs(ea, aa, subst);
                }
            }
        },
        Type::Enum { id: ei, args: ea } => {
            if let Type::Enum { id: ai, args: aa } = actual {
                if ea.len() == aa.len() && *ei == *ai {
                    infer_pairs(ea, aa, subst);
                }
            }
        },
        Type::Reference { mutable: em, inner: ei } => {
            if let Type::Reference { mutable: am, inner: ai } = actual {
                if *em == *am {
                    infer_generic_subst_from_types(ei, ai, subst);
                }
            }
        },
        Type::Pointer(ei) => {
            if let Type::Pointer(ai) = actual {
                infer_generic_subst_from_types(ei, ai, subst);
            }
        },
        Type::Projection { ty: et, trait_id: etr, assoc_type: eas, trait_args: ea } => {
            if let Type::Projection { ty: at, trait_id: atr, assoc_type: aas, trait_args: aa } =
                actual {
                if *etr == *atr && *eas == *aas && ea.len() == aa.len() {
                    infer_generic_subst_from_types(et, at, subst);
                    infer_pairs(ea, aa, subst);
                }
            }
        },
        Type::Apply { constructor: ec, args: ea } => {
            if let Type::Apply { constructor: ac, args: aa } = actual {
                if ea.len() == aa.len() {
                    infer_generic_subst_from_types(ec, ac, subst);
                    infer_pairs(ea, aa, subst);
                }
            }
        },
        Type::Lambda { params: ep, body: eb } => {
            if let Type::Lambda { params: ap, body: ab } = actual {
                if kinds_eq(ep, ap) {
                    infer_generic_subst_from_types(eb, ab, subst);
                }
            }
        },
        _ => {},
    }
}

fn infer_pairs(es: &Vec<Type>, as_: &Vec<Type>, subst: &mut Substitution)
    requires
        old(subst).wf(),
    ensures
        final(subst).wf(),
        final(subst)@ == infer_all(view_types(es@), view_types(as_@), old(subst)@),
    decreases es,
{
    let n = if es.len() <= as_.len() {
        es.len()
    } else {
        as_.len()
    };
    let ghost m0 = subst@;
    let ghost ev = view_types(es@);
    let ghost av = view_types(as_@);
    let mut i: usize = 0;
    while i < n
        invariant
            subst.wf(),
            i <= n,
            n <= es@.len(),
            n <= as_@.len(),
            ev == view_types(es@),
            av == view_types(as_@),
            subst@ == infer_all(ev.take(i as int), av.take(i as int), m0),
        decreases n - i,
    {
        assert(ev.take(i + 1).take(i as int) =~= ev.take(i as int));
        assert(av.take(i + 1).take(i as int) =~= av.take(i as int));
        infer_generic_subst_from_types(&es[i], &as_[i], subst);
        i = i + 1;
    }
    proof {
        if n > 0 {
            assert(ev.take(n as int).take(n - 1) =~= ev.take(n - 1));
            assert(av.take(n as int).take(n - 1) =~= av.take(n - 1));
        }
    }
}

/// The substitution that matching `pattern` against `actual` from `m` leads to,
/// if it succeeds: `m` extended by [`infer`], provided the substituted pattern
/// then matches.
pub open spec fn spec_type_pattern_matches(
    pattern: SpecType,
    actual: SpecType,
    m: Map<GenericParamId, SpecType>,
) -> Option<Map<GenericParamId, SpecType>> {
    let next = infer(pattern, actual, m);
    if spec_matches(subst_type(pattern, next), actual) {
        Some(next)
    } else {
        None
    }
}

/// Matches `pattern` against `actual`, inferring the generic parameters of
/// `pattern` that `subst` does not bind yet. On success `subst` receives the
/// inferred bindings; on failure it is left unchanged.
pub fn type_pattern_matches(pattern: &Type, actual: &Type, subst: &mut Substitution) -> (r: bool)
    requires
        old(subst).wf(),
    ensures
        final(subst).wf(),
        r == spec_type_pattern_matches(pattern@, actual@, old(subst)@) is Some,
        r ==> Some(final(subst)@) == spec_type_pattern_matches(pattern@, actual@, old(subst)@),
        !r ==> final(subst)@ == old(subst)@,
        old(subst)@.submap_of(final(subst)@),
        r ==> spec_matches(subst_type(pattern@, final(subst)@), actual@),
        r ==> final(subst)@ == infer(pattern@, actual@, old(subst)@),
        !r ==> !spec_matches(subst_type(pattern@, infer(pattern@, actual@, old(subst)@)), actual@),
{
    proof {
        lemma_infer_keeps_bindings(pattern@, actual@, subst@);
    }
    let mut next_subst = subst.clone();
    infer_generic_subst_from_types(pattern, actual, &mut next_subst);
    if type_pattern_matches_after_subst(&pattern.substitute_generics(&next_subst), actual) {
        *subst = next_subst;
        true
    } else {
        false
    }
}

/// The types a receiver carries as generic arguments: those of a nominal
/// type, the element of a slice, array or pointer, or the element of a
/// referenced slice or array.
pub open spec fn spec_receiver_pattern(ty: SpecType) -> Seq<SpecType> {
    match ty {
        SpecType::Struct { args, .. } => args,
        SpecType::Enum { args, .. } => args,
        SpecType::Slice(inner) => seq![*inner],
        SpecType::Array(inner, _) => seq![*inner],
        SpecType::Pointer(inner) => seq![*inner],
        SpecType::Reference { inner, .. } => match *inner {
            SpecType::Slice(elem) => seq![*elem],
            SpecType::Array(elem, _) => seq![*elem],
            _ => seq![],
        },
        _ => seq![],
    }
}

/// The generic arguments a receiver type carries.
pub fn receiver_pattern(ty: &Type) -> (r: Vec<Type>)
    ensures
        ty@ matches SpecType::Struct { args, .. } ==> view_types(r@) == args,
        ty@ matches SpecType::Enum { args, .. } ==> view_types(r@) == args,
        ty@ matches SpecType::Slice(inner) ==> view_types(r@) == seq![*inner],
        ty@ matches SpecType::Array(inner, _) ==> view_types(r@) == seq![*inner],
        ty@ matches SpecType::Pointer(inner) ==> view_types(r@) == seq![*inner],
        ty@ matches SpecType::Reference { inner, .. } ==> (*inner matches SpecType::Slice(elem)
            ==> view_types(r@) == seq![*elem]),
        ty@ matches SpecType::Reference { inner, .. } ==> (*inner matches SpecType::Array(elem, _)
            ==> view_types(r@) == seq![*elem]),
        ty@ matches SpecType::Reference { inner, .. } ==> (!(*inner is Slice) && !(*inner is Array)
            ==> r@.len() == 0),
        !(ty@ is Struct) && !(ty@ is Enum) && !(ty@ is Slice) && !(ty@ is Array) && !(ty@ is Pointer)
            && !(ty@ is Reference) ==> r@.len() == 0,
        view_types(r@) == spec_receiver_pattern(ty@),
{
    match ty {
        Type::Struct { args, .. } => clone_types(args),
        Type::Enum { args, .. } => clone_types(args),
        Type::Slice(inner) | Type::Array(inner, _) | Type::Pointer(inner) => {
            let r = vec![clone_type(inner)];
            assert(view_types(r@) =~= seq![inner@]);
            r
        },
        Type::Reference { inner, .. } => {
            assert(ty@ == SpecType::Reference { mutable: ty@->mutable, inner: Box::new(inner@) });
            match &**inner {
                Type::Slice(elem) | Type::Array(elem, _) => {
                    let r = vec![clone_type(elem)];
                    assert(view_types(r@) =~= seq![elem@]);
                    r
                },
                Type::Str => {
                    let r = Vec::new();
                    assert(view_types(r@) =~= Seq::<SpecType>::empty());
                    r
                },
                _ => {
                    let r = Vec::new();
                    assert(view_types(r@) =~= Seq::<SpecType>::empty());
                    r
                },
            }
        },
        _ => {
            let r = Vec::new();
            assert(view_types(r@) =~= Seq::<SpecType>::empty());
            r
        },
    }
}

/// Matching from no bindings at all.
pub open spec fn try_match(expected: SpecType, actual: SpecType) -> Option<
    Map<GenericParamId, SpecType>,
> {
    spec_type_pattern_matches(expected, actual, Map::empty())
}

pub open spec fn or_else<T>(first: Option<T>, second: Option<T>) -> Option<T> {
    if first is Some {
        first
    } else {
        second
    }
}

/// The bindings an optional substitution holds, if there is one.
pub open spec fn substitution_view(r: Option<Substitution>) -> Option<Map<GenericParamId, SpecType>> {
    match r {
        Some(s) => Some(s@),
        None => None,
    }
}

/// The element type of a slice or array, possibly behind a reference.
pub open spec fn slice_element(ty: SpecType) -> Option<SpecType> {
    match ty {
        SpecType::Slice(element) => Some(*element),
        SpecType::Array(element, _) => Some(*element),
        SpecType::Reference { inner, .. } => match *inner {
            SpecType::Slice(element) => Some(*element),
            SpecType::Array(element, _) => Some(*element),
            _ => None,
        },
        _ => None,
    }
}

/// How a receiver pattern binds its generics for a receiver type. An exact
/// pattern is tried against the receiver, then against the referenced
/// receiver, then with the pattern's own reference removed, then both
/// references removed when the pattern's is shared; the first success wins.
pub open spec fn spec_receiver_pattern_substitution(
    pattern: HirImplReceiverPattern,
    receiver: SpecType,
) -> Option<Map<GenericParamId, SpecType>> {
    match pattern {
        HirImplReceiverPattern::Exact(expected) => {
            let e = expected@;
            or_else(
                try_match(e, receiver),
                or_else(
                    match receiver {
                        SpecType::Reference { inner, .. } => try_match(e, *inner),
                        _ => None,
                    },
                    or_else(
                        match e {
                            SpecType::Reference { inner, .. } => try_match(*inner, receiver),
                            _ => None,
                        },
                        match (e, receiver) {
                            (
                                SpecType::Reference { mutable: false, inner: ei },
                                SpecType::Reference { inner: ai, .. },
                            ) => try_match(*ei, *ai),
                            _ => None,
                        },
                    ),
                ),
            )
        },
        HirImplReceiverPattern::SliceFamily { element } => match slice_element(receiver) {
            Some(actual_element) => try_match(element@, actual_element),
            None => None,
        },
        HirImplReceiverPattern::Constructor(expected) => try_match(expected@, receiver),
    }
}

fn match_fresh(expected: &Type, actual: &Type) -> (r: Option<Substitution>)
    ensures
        r matches Some(s) ==> s.wf() && try_match(expected@, actual@) == Some(s@),
        r is None ==> try_match(expected@, actual@) is None,
{
    let mut substitution = Substitution::new();
    if type_pattern_matches(expected, actual, &mut substitution) {
        Some(substitution)
    } else {
        None
    }
}

/// The substitution under which an impl's receiver pattern accepts `receiver_ty`.
pub fn receiver_pattern_substitution(pattern: &HirImplReceiverPattern, receiver_ty: &Type) -> (r:
    Option<Substitution>)
    ensures
        pattern matches HirImplReceiverPattern::Exact(e) ==> (try_match(e@, receiver_ty@) matches Some(m)
            ==> (r matches Some(s) && s@ == m)),
        pattern matches HirImplReceiverPattern::Exact(e) ==> (receiver_ty@ matches SpecType::Reference { inner, .. }
            ==> (try_match(e@, receiver_ty@) is None ==> (try_match(e@, *inner) matches Some(m) ==> (r matches Some(
            s) && s@ == m)))),
        pattern matches HirImplReceiverPattern::Exact(e) ==> (receiver_ty@ !is Reference ==> (try_match(
            e@,
            receiver_ty@,
        ) is None ==> (e@ matches SpecType::Reference { inner, .. } ==> substitution_view(r) == try_match(
            *inner,
            receiver_ty@,
        )))),
        pattern matches HirImplReceiverPattern::Exact(e) ==> (receiver_ty@ !is Reference ==> (try_match(
            e@,
            receiver_ty@,
        ) is None ==> (e@ !is Reference ==> r is None))),
        pattern matches HirImplReceiverPattern::Exact(e) ==> (receiver_ty@ matches SpecType::Reference {
            inner: ai,
            ..
        } ==> (try_match(e@, receiver_ty@) is None && try_match(e@, *ai) is None ==> (e@ matches SpecType::Reference {
            inner: ei,
            ..
        } ==> (try_match(*ei, receiver_ty@) is Some ==> substitution_view(r) == try_match(*ei, receiver_ty@))))),
        pattern matches HirImplReceiverPattern::Exact(e) ==> (receiver_ty@ matches SpecType::Reference {
            inner: ai,
            ..
        } ==> (try_match(e@, receiver_ty@) is None && try_match(e@, *ai) is None ==> (e@ matches SpecType::Reference {
            mutable: false,
            inner: ei,
        } ==> (try_match(*ei, receiver_ty@) is None ==> substitution_view(r) == try_match(*ei, *ai))))),
        pattern matches HirImplReceiverPattern::Exact(e) ==> (receiver_ty@ is Reference ==> (try_match(
            e@,
            receiver_ty@,
        ) is None && try_match(e@, *receiver_ty@->inner) is None ==> (e@ matches SpecType::Reference {
            mutable: true,
            inner: ei,
        } ==> (try_match(*ei, receiver_ty@) is None ==> r is None)))),
        pattern matches HirImplReceiverPattern::Exact(e) ==> (receiver_ty@ is Reference ==> (try_match(
            e@,
            receiver_ty@,
        ) is None && try_match(e@, *receiver_ty@->inner) is None ==> (e@ !is Reference ==> r is None))),
        pattern matches HirImplReceiverPattern::Constructor(e) ==> substitution_view(r) == try_match(
            e@,
            receiver_ty@,
        ),
        pattern matches HirImplReceiverPattern::SliceFamily { element } ==> (receiver_ty@ matches SpecType::Slice(
            x,
        ) ==> substitution_view(r) == try_match(element@, *x)),
        pattern matches HirImplReceiverPattern::SliceFamily { element } ==> (receiver_ty@ matches SpecType::Array(
            x,
            _,
        ) ==> substitution_view(r) == try_match(element@, *x)),
        pattern matches HirImplReceiverPattern::SliceFamily { element } ==> (receiver_ty@ matches SpecType::Reference {
            inner,
            ..
        } ==> (*inner matches SpecType::Slice(x) ==> substitution_view(r) == try_match(element@, *x))),
        pattern matches HirImplReceiverPattern::SliceFamily { element } ==> (receiver_ty@ matches SpecType::Reference {
            inner,
            ..
        } ==> (*inner matches SpecType::Array(x, _) ==> substitution_view(r) == try_match(element@, *x))),
        pattern matches HirImplReceiverPattern::SliceFamily { .. } ==> (receiver_ty@ matches SpecType::Reference {
            inner,
            ..
        } ==> (!(*inner is Slice) && !(*inner is Array) ==> r is None)),
        pattern matches HirImplReceiverPattern::SliceFamily { .. } ==> (!(receiver_ty@ is Slice) && !(
        receiver_ty@ is Array) && !(receiver_ty@ is Reference) ==> r is None),
        r matches Some(s) ==> s.wf() && spec_receiver_pattern_substitution(*pattern, receiver_ty@)
            == Some(s@),
        r is None ==> spec_receiver_pattern_substitution(*pattern, receiver_ty@) is None,
{
    match pattern {
        HirImplReceiverPattern::Exact(expected) => {
            if let Some(s) = match_fresh(expected, receiver_ty) {
                return Some(s);
            }
            if let Type::Reference { inner, .. } = receiver_ty {
                assert(receiver_ty@ == SpecType::Reference { mutable: receiver_ty@->mutable, inner: Box::new(inner@) });
                if let Some(s) = match_fresh(expected, inner) {
                    return Some(s);
                }
            }
            if let Type::Reference { inner, .. } = expected {
                assert(expected@ == SpecType::Reference { mutable: expected@->mutable, inner: Box::new(inner@) });
                if let Some(s) = match_fresh(inner, receiver_ty) {
                    return Some(s);
                }
            }
            match (expected, receiver_ty) {
                (
                    Type::Reference { mutable: false, inner: expected_inner },
                    Type::Reference { inner: actual_inner, .. },
                ) => match_fresh(expected_inner, actual_inner),
                _ => None,
            }
        },
        HirImplReceiverPattern::SliceFamily { element } => {
            let actual_element = match receiver_ty {
                Type::Slice(element) => &**element,
                Type::Array(element, _) => &**element,
                Type::Reference { inner, .. } => match &**inner {
                    Type::Slice(element) => {
                        assert(receiver_ty@ == SpecType::Reference { mutable: receiver_ty@->mutable, inner: Box::new(inner@) });
                        &**element
                    },
                    Type::Array(element, _) => {
                        assert(receiver_ty@ == SpecType::Reference { mutable: receiver_ty@->mutable, inner: Box::new(inner@) });
                        &**element
                    },
                    _ => {
                        assert(receiver_ty@ == SpecType::Reference { mutable: receiver_ty@->mutable, inner: Box::new(inner@) });
                        return None;
                    },
                },
                _ => {
                    return None;
                },
            };
            match_fresh(element, actual_element)
        },
        HirImplReceiverPattern::Constructor(expected) => match_fresh(expected, receiver_ty),
    }
}

/// How a constructor pattern binds its generics for a target type; only
/// constructor patterns take part.
pub open spec fn spec_constructor_target_substitution(
    pattern: HirImplReceiverPattern,
    target: SpecType,
) -> Option<Map<GenericParamId, SpecType>> {
    match pattern {
        HirImplReceiverPattern::Constructor(expected) => try_match(expected@, target),
        _ => None,
    }
}

/// The substitution under which a constructor pattern accepts `target`.
pub fn constructor_target_substitution(pattern: &HirImplReceiverPattern, target: &Type) -> (r:
    Option<Substitution>)
    ensures
        pattern !is Constructor ==> r is None,
        pattern matches HirImplReceiverPattern::Constructor(e) ==> substitution_view(r) == try_match(e@, target@),
        r matches Some(s) ==> s.wf() && spec_constructor_target_substitution(*pattern, target@)
            == Some(s@),
        r is None ==> spec_constructor_target_substitution(*pattern, target@) is None,
{
    let HirImplReceiverPattern::Constructor(expected) = pattern else {
        return None;
    };
    match_fresh(expected, target)
}

/// Binds each declared generic in turn to the type at the same position,
/// keeping bindings already present, as far as the shorter list goes.
pub open spec fn bind_absent_pairs(
    decls: Seq<GenericParamDecl>,
    tys: Seq<SpecType>,
    m: Map<GenericParamId, SpecType>,
) -> Map<GenericParamId, SpecType>
    decreases decls.len(),
{
    let n = if decls.len() <= tys.len() {
        decls.len()
    } else {
        tys.len()
    };
    if n == 0 {
        m
    } else {
        let prev = bind_absent_pairs(decls.take(n - 1), tys.take(n - 1), m);
        if prev.contains_key(decls[n - 1].id) {
            prev
        } else {
            prev.insert(decls[n - 1].id, tys[n - 1])
        }
    }
}

/// The bindings an impl seeds for a receiver: those of its receiver pattern,
/// then its type generics positionally from the receiver's generic arguments
/// where still unbound.
pub open spec fn spec_seed_receiver_substitution(
    imp: HirImpl,
    recv: SpecType,
    m: Map<GenericParamId, SpecType>,
) -> Map<GenericParamId, SpecType> {
    let m1 = match spec_receiver_pattern_substitution(imp.receiver_pattern, recv) {
        Some(rs) => m.union_prefer_right(rs),
        None => m,
    };
    bind_absent_pairs(imp.type_generics@, spec_receiver_pattern(recv), m1)
}

/// Seeds `subst` with what an impl's receiver pattern and type generics say
/// about the receiver type.
pub fn seed_receiver_substitution_from_impl(imp: &HirImpl, recv_ty: &Type, subst: &mut Substitution)
    requires
        old(subst).wf(),
    ensures
        final(subst).wf(),
        final(subst)@ == spec_seed_receiver_substitution(*imp, recv_ty@, old(subst)@),
{
    if let Some(receiver_substitution) = receiver_pattern_substitution(
        &imp.receiver_pattern,
        recv_ty,
    ) {
        subst.extend(&receiver_substitution);
    }
    let ghost m1 = subst@;
    let concrete = receiver_pattern(recv_ty);
    let ghost tys = view_types(concrete@);
    let n = if imp.type_generics.len() <= concrete.len() {
        imp.type_generics.len()
    } else {
        concrete.len()
    };
    let mut i: usize = 0;
    while i < n
        invariant
            subst.wf(),
            i <= n,
            n <= imp.type_generics@.len(),
            n <= concrete@.len(),
            tys == view_types(concrete@),
            subst@ == bind_absent_pairs(imp.type_generics@.take(i as int), tys.take(i as int), m1),
        decreases n - i,
    {
        assert(imp.type_generics@.take(i + 1).take(i as int) =~= imp.type_generics@.take(i as int));
        assert(tys.take(i + 1).take(i as int) =~= tys.take(i as int));
        subst.insert_if_absent(imp.type_generics[i].id, clone_type(&concrete[i]));
        i = i + 1;
    }
    proof {
        let decls = imp.type_generics@;
        if n > 0 {
            assert(decls.take(n as int).take(n - 1) =~= decls.take(n - 1));
            assert(tys.take(n as int).take(n - 1) =~= tys.take(n - 1));
        }
    }
}

/// The map that collecting (parameter, argument) pairs produces, a later pair
/// for the same parameter winning, as far as the shorter list goes.
pub open spec fn owner_substitution(params: Seq<GenericParamDecl>, args: Seq<SpecType>) -> Map<
    GenericParamId,
    SpecType,
>
    decreases params.len(),
{
    let n = if params.len() <= args.len() {
        params.len()
    } else {
        args.len()
    };
    if n == 0 {
        Map::empty()
    } else {
        owner_substitution(params.take(n - 1), args.take(n - 1)).insert(params[n - 1].id, args[n - 1])
    }
}

/// Binds each declared generic parameter of an owner to the argument at the same position.
pub fn generic_substitution_for_owner(params: &Vec<GenericParamDecl>, args: &Vec<Type>) -> (r:
    Substitution)
    ensures
        r.wf(),
        r@ == owner_substitution(params@, view_types(args@)),
{
    let ghost tys = view_types(args@);
    let n = if params.len() <= args.len() {
        params.len()
    } else {
        args.len()
    };
    let mut r = Substitution::new();
    let mut i: usize = 0;
    while i < n
        invariant
            r.wf(),
            i <= n,
            n <= params@.len(),
            n <= args@.len(),
            tys == view_types(args@),
            r@ == owner_substitution(params@.take(i as int), tys.take(i as int)),
        decreases n - i,
    {
        assert(params@.take(i + 1).take(i as int) =~= params@.take(i as int));
        assert(tys.take(i + 1).take(i as int) =~= tys.take(i as int));
        r.insert(params[i].id, clone_type(&args[i]));
        i = i + 1;
    }
    proof {
        if n > 0 {
            assert(params@.take(n as int).take(n - 1) =~= params@.take(n - 1));
            assert(tys.take(n as int).take(n - 1) =~= tys.take(n - 1));
        }
    }
    r
}

/// An impl is a valid target unless the call names another impl, or another trait.
pub open spec fn spec_target_matches_impl(imp: HirImpl, target: Option<HirMethodCallTarget>) -> bool {
    match target {
        None => true,
        Some(t) => {
            &&& (t.spec_impl_id() matches Some(impl_id) ==> imp.id == impl_id)
            &&& (t.spec_trait_id() matches Some(trait_id) ==> imp.trait_id == Some(trait_id))
        },
    }
}

/// Whether a resolved call target permits the given impl.
pub fn target_matches_impl(imp: &HirImpl, target: Option<&HirMethodCallTarget>) -> (r: bool)
    ensures
        target is None ==> r,
        target matches Some(t) ==> (t.spec_trait_id() matches Some(tr) ==> (imp.trait_id != Some(tr) ==> !r)),
        target matches Some(t) ==> (t.spec_impl_id() matches Some(i) ==> (imp.id != i ==> !r)),
        target matches Some(t) ==> ((t.spec_impl_id() is None || t.spec_impl_id() == Some(imp.id)) && (
        t.spec_trait_id() is None || t.spec_trait_id() == imp.trait_id) ==> r),
        r == spec_target_matches_impl(
            *imp,
            match target {
                Some(t) => Some(*t),
                None => None,
            },
        ),
{
    let Some(target) = target else {
        return true;
    };
    if let Some(impl_id) = target.impl_id() {
        if imp.id != impl_id {
            return false;
        }
    }
    if let Some(trait_id) = target.trait_id() {
        if imp.trait_id != Some(trait_id) {
            return false;
        }
    }
    true
}

/// The mathematical value of a list of argument slots.
pub open spec fn view_slots(slots: Seq<Option<Type>>) -> Seq<Option<SpecType>> {
    Seq::new(
        slots.len(),
        |i: int|
            match slots[i] {
                Some(t) => Some(view_type(t)),
                None => None,
            },
    )
}

/// `n` unfilled argument slots.
pub open spec fn empty_slots(n: nat) -> Seq<Option<SpecType>> {
    Seq::new(n, |i: int| None::<SpecType>)
}

/// Reads the arguments of a type-lambda section off `actual`: walking
/// `pattern` (the lambda body) and `actual` together, a variable bound by the
/// lambda at `depth` fills its slot, or must equal what already fills it; a
/// generic parameter accepts anything; otherwise the shapes must agree. Gives
/// whether this succeeded and the slots afterwards (a failed walk keeps what it
/// filled before failing).
pub open spec fn collect(
    pattern: SpecType,
    actual: SpecType,
    depth: Option<u32>,
    slots: Seq<Option<SpecType>>,
) -> (bool, Seq<Option<SpecType>>)
    decreases pattern,
{
    if pattern is BoundVar && depth == Some(pattern->depth) {
        let index = pattern->index;
        if index < slots.len() {
            match slots[index as int] {
                Some(existing) => (existing == actual, slots),
                None => (true, slots.update(index as int, Some(actual))),
            }
        } else {
            (false, slots)
        }
    } else if pattern is Generic {
        (true, slots)
    } else {
        match (pattern, actual) {
            (SpecType::Struct { id: pi, args: pa }, SpecType::Struct { id: ai, args: aa }) => if pi
                == ai && pa.len() == aa.len() {
                collect_all(pa, aa, depth, slots)
            } else {
                (false, slots)
            },
            (SpecType::Enum { id: pi, args: pa }, SpecType::Enum { id: ai, args: aa }) => if pi == ai
                && pa.len() == aa.len() {
                collect_all(pa, aa, depth, slots)
            } else {
                (false, slots)
            },
            (
                SpecType::Apply { constructor: pc, args: pa },
                SpecType::Apply { constructor: ac, args: aa },
            ) => if pa.len() == aa.len() {
                let r = collect(*pc, *ac, depth, slots);
                if r.0 {
                    collect_all(pa, aa, depth, r.1)
                } else {
                    r
                }
            } else {
                (false, slots)
            },
            (SpecType::Tuple(pa), SpecType::Tuple(aa)) => if pa.len() == aa.len() {
                collect_all(pa, aa, depth, slots)
            } else {
                (false, slots)
            },
            (
                SpecType::Function { params: pp, ret: pr, .. },
                SpecType::Function { params: ap, ret: ar, .. },
            ) => if pp.len() == ap.len() {
                let r = collect_all(pp, ap, depth, slots);
                if r.0 {
                    collect(*pr, *ar, depth, r.1)
                } else {
                    r
                }
            } else {
                (false, slots)
            },
            (SpecType::Slice(pi), SpecType::Slice(ai)) => collect(*pi, *ai, depth, slots),
            (SpecType::Pointer(pi), SpecType::Pointer(ai)) => collect(*pi, *ai, depth, slots),
            (SpecType::Array(pi, pl), SpecType::Array(ai, al)) => if pl == al {
                collect(*pi, *ai, depth, slots)
            } else {
                (false, slots)
            },
            (
                SpecType::Reference { mutable: pm, inner: pi },
                SpecType::Reference { mutable: am, inner: ai },
            ) => if pm == am {
                collect(*pi, *ai, depth, slots)
            } else {
                (false, slots)
            },
            (SpecType::Lambda { params: pp, body: pb }, SpecType::Lambda { params: ap, body: ab }) => if pp
                == ap {
                collect(*pb, *ab, next_depth(depth), slots)
            } else {
                (false, slots)
            },
            _ => (pattern == actual, slots),
        }
    }
}

/// [`collect`] over the pairs of two lists, left to right, stopping at the first failure.
pub open spec fn collect_all(
    ps: Seq<SpecType>,
    as_: Seq<SpecType>,
    depth: Option<u32>,
    slots: Seq<Option<SpecType>>,
) -> (bool, Seq<Option<SpecType>>)
    decreases ps,
{
    if ps.len() == 0 || as_.len() == 0 {
        (true, slots)
    } else {
        let r = collect(ps[0], as_[0], depth, slots);
        if r.0 {
            collect_all(ps.skip(1), as_.skip(1), depth, r.1)
        } else {
            r
        }
    }
}

fn collect_section_arguments(
    pattern: &Type,
    actual: &Type,
    lambda_depth: Option<u32>,
    args: &mut Vec<Option<Type>>,
) -> (r: bool)
    ensures
        (r, view_slots(final(args)@)) == collect(pattern@, actual@, lambda_depth, view_slots(old(args)@)),
        final(args)@.len() == old(args)@.len(),
        forall|i: int|
            0 <= i < old(args)@.len() && #[trigger] view_slots(old(args)@)[i] is Some ==> view_slots(final(args)@)[i]
                == view_slots(old(args)@)[i],
    decreases pattern,
{
    proof {
        crate::matching_laws::lemma_collect_keeps_filled(pattern@, actual@, lambda_depth, view_slots(args@));
    }
    if let Type::BoundVar { depth, index, .. } = pattern {
        if lambda_depth == Some(*depth) {
            let index = *index as usize;
            if index >= args.len() {
                return false;
            }
            match &args[index] {
                Some(existing) => {
                    return type_eq(existing, actual);
                },
                None => {
                    let ghost before = view_slots(args@);
                    args.set(index, Some(clone_type(actual)));
                    assert(view_slots(args@) =~= before.update(index as int, Some(actual@)));
                    return true;
                },
            }
        }
    }
    if let Type::Generic(_) = pattern {
        return true;
    }
    match (pattern, actual) {
        (Type::Struct { id: pi, args: pa }, Type::Struct { id: ai, args: aa }) => {
            assert(pattern@ == SpecType::Struct { id: *pi, args: view_types(pa@) });
            assert(actual@ == SpecType::Struct { id: *ai, args: view_types(aa@) });
            *pi == *ai && pa.len() == aa.len() && collect_pairs(pa, aa, lambda_depth, args)
        },
        (Type::Enum { id: pi, args: pa }, Type::Enum { id: ai, args: aa }) => {
            assert(pattern@ == SpecType::Enum { id: *pi, args: view_types(pa@) });
            assert(actual@ == SpecType::Enum { id: *ai, args: view_types(aa@) });
            *pi == *ai && pa.len() == aa.len() && collect_pairs(pa, aa, lambda_depth, args)
        },
        (Type::Apply { constructor: pc, args: pa }, Type::Apply { constructor: ac, args: aa }) => {
            assert(pattern@ == SpecType::Apply { constructor: Box::new(pc@), args: view_types(pa@) });
            assert(actual@ == SpecType::Apply { constructor: Box::new(ac@), args: view_types(aa@) });
            pa.len() == aa.len() && collect_section_arguments(pc, ac, lambda_depth, args)
                && collect_pairs(pa, aa, lambda_depth, args)
        },
        (Type::Tuple(pa), Type::Tuple(aa)) => {
            assert(pattern@ == SpecType::Tuple(view_types(pa@)));
            assert(actual@ == SpecType::Tuple(view_types(aa@)));
            pa.len() == aa.len() && collect_pairs(pa, aa, lambda_depth, args)
        },
        (Type::Function { params: pp, ret: pr, .. }, Type::Function { params: ap, ret: ar, .. }) => {
            assert(pattern@->Function_params == view_types(pp@));
            assert(actual@->Function_params == view_types(ap@));
            pp.len() == ap.len() && collect_pairs(pp, ap, lambda_depth, args)
                && collect_section_arguments(pr, ar, lambda_depth, args)
        },
        (Type::Slice(pi), Type::Slice(ai)) => collect_section_arguments(pi, ai, lambda_depth, args),
        (Type::Pointer(pi), Type::Pointer(ai)) => collect_section_arguments(
            pi,
            ai,
            lambda_depth,
            args,
        ),
        (Type::Array(pi, pl), Type::Array(ai, al)) => {
            *pl == *al && collect_section_arguments(pi, ai, lambda_depth, args)
        },
        (Type::Reference { mutable: pm, inner: pi }, Type::Reference { mutable: am, inner: ai }) => {
            *pm == *am && collect_section_arguments(pi, ai, lambda_depth, args)
        },
        (Type::Lambda { params: pp, body: pb }, Type::Lambda { params: ap, body: ab }) => {
            kinds_eq(pp, ap) && collect_section_arguments(
                pb,
                ab,
                match lambda_depth {
                    Some(d) => if d < u32::MAX {
                        Some(d + 1)
                    } else {
                        None
                    },
                    None => None,
                },
                args,
            )
        },
        _ => type_eq(pattern, actual),
    }
}

fn collect_pairs(ps: &Vec<Type>, as_: &Vec<Type>, depth: Option<u32>, args: &mut Vec<Option<Type>>) -> (r:
    bool)
    ensures
        (r, view_slots(final(args)@)) == collect_all(
            view_types(ps@),
            view_types(as_@),
            depth,
            view_slots(old(args)@),
        ),
    decreases ps,
{
    let ghost pv = view_types(ps@);
    let ghost av = view_types(as_@);
    let ghost start = view_slots(args@);
    let n = if ps.len() <= as_.len() {
        ps.len()
    } else {
        as_.len()
    };
    let mut i: usize = 0;
    assert(pv.skip(0) =~= pv);
    assert(av.skip(0) =~= av);
    while i < n
        invariant
            i <= n,
            n <= ps@.len(),
            n <= as_@.len(),
            n == ps@.len() || n == as_@.len(),
            start == view_slots(old(args)@),
            pv == view_types(ps@),
            av == view_types(as_@),
            collect_all(pv, av, depth, start) == collect_all(
                pv.skip(i as int),
                av.skip(i as int),
                depth,
                view_slots(args@),
            ),
        decreases n - i,
    {
        assert(pv.skip(i as int).len() > 0 && av.skip(i as int).len() > 0);
        assert(pv.skip(i as int)[0] == pv[i as int]);
        assert(av.skip(i as int)[0] == av[i as int]);
        assert(pv.skip(i as int).skip(1) =~= pv.skip(i + 1));
        assert(av.skip(i as int).skip(1) =~= av.skip(i + 1));
        let ghost prev = view_slots(args@);
        let ok = collect_section_arguments(&ps[i], &as_[i], depth, args);
        assert(collect_all(pv.skip(i as int), av.skip(i as int), depth, prev) == (if ok {
            collect_all(pv.skip(i + 1), av.skip(i + 1), depth, view_slots(args@))
        } else {
            (false, view_slots(args@))
        }));
        if !ok {
            return false;
        }
        i = i + 1;
    }
    assert(pv.skip(n as int).len() == 0 || av.skip(n as int).len() == 0);
    true
}

/// The constructor that `actual` is an application of, according to a
/// constructor pattern, with the bindings that identify it: a nominal
/// constructor must name `actual`'s own definition; a section (a type lambda)
/// must have all its arguments read off `actual` by [`collect`], and its
/// application to them must match `actual`.
pub open spec fn spec_constructor_target_from_applied_type(
    pattern: HirImplReceiverPattern,
    actual: SpecType,
) -> Option<(SpecType, Map<GenericParamId, SpecType>)> {
    match pattern {
        HirImplReceiverPattern::Constructor(target_type) => {
            let target = target_type@;
            match target {
                SpecType::Constructor { id, flavor } => match actual {
                    SpecType::Struct { id: actual_id, .. } => if id == actual_id && flavor
                        == NominalTypeKind::Struct {
                        Some((target, Map::empty()))
                    } else {
                        None
                    },
                    SpecType::Enum { id: actual_id, .. } => if id == actual_id && flavor
                        == NominalTypeKind::Enum {
                        Some((target, Map::empty()))
                    } else {
                        None
                    },
                    _ => None,
                },
                SpecType::Lambda { params, body } => {
                    let r = collect(*body, actual, Some(0), empty_slots(params.len()));
                    if !r.0 || exists|i: int| 0 <= i < r.1.len() && r.1[i] is None {
                        None
                    } else {
                        let args = r.1.map_values(|slot: Option<SpecType>| slot->0);
                        match spec_apply_type_lambda(target, args) {
                            Some(applied) => match try_match(applied, actual) {
                                Some(m) => Some((subst_type(target, m), m)),
                                None => None,
                            },
                            None => None,
                        }
                    }
                },
                _ => None,
            }
        },
        _ => None,
    }
}

/// Identifies which constructor `actual` applies, by a constructor pattern.
#[verifier::loop_isolation(false)]
pub fn constructor_target_from_applied_type(pattern: &HirImplReceiverPattern, actual: &Type) -> (r:
    Option<(Type, Substitution)>)
    ensures
        r matches Some((t, s)) ==> s.wf() && spec_constructor_target_from_applied_type(
            *pattern,
            actual@,
        ) == Some((t@, s@)),
        r is None ==> spec_constructor_target_from_applied_type(*pattern, actual@) is None,
{
    let HirImplReceiverPattern::Constructor(target) = pattern else {
        return None;
    };
    if let Type::Constructor { id, flavor } = target {
        let (actual_id, actual_flavor) = match actual {
            Type::Struct { id, .. } => (*id, NominalTypeKind::Struct),
            Type::Enum { id, .. } => (*id, NominalTypeKind::Enum),
            _ => {
                return None;
            },
        };
        if *id == actual_id && *flavor == actual_flavor {
            return Some((clone_type(target), Substitution::new()));
        }
        return None;
    }
    let Type::Lambda { params, body } = target else {
        return None;
    };
    let mut slots: Vec<Option<Type>> = Vec::new();
    let mut i: usize = 0;
    while i < params.len()
        invariant
            i <= params@.len(),
            slots@.len() == i,
            forall|j: int| 0 <= j < i ==> slots@[j] is None,
        decreases params.len() - i,
    {
        slots.push(None);
        i = i + 1;
    }
    assert(view_slots(slots@) =~= empty_slots(params@.len()));
    assert(target@ == SpecType::Lambda { params: params@, body: Box::new(body@) });
    if !collect_section_arguments(body, actual, Some(0), &mut slots) {
        return None;
    }
    let ghost filled = view_slots(slots@);
    let mut args: Vec<Type> = Vec::new();
    let mut k: usize = 0;
    while k < slots.len()
        invariant
            k <= slots@.len(),
            filled == view_slots(slots@),
            args@.len() == k,
            forall|j: int| 0 <= j < k ==> filled[j] == Some(view_type(#[trigger] args@[j])),
        decreases slots.len() - k,
    {
        match &slots[k] {
            Some(t) => {
                args.push(clone_type(t));
            },
            None => {
                assert(filled[k as int] is None);
                return None;
            },
        }
        k = k + 1;
    }
    assert(view_types(args@) =~= filled.map_values(|slot: Option<SpecType>| slot->0));
    assert forall|j: int| 0 <= j < filled.len() implies !(filled[j] is None) by {
        assert(filled[j] == Some(view_type(args@[j])));
    }
    let applied = match apply_type_lambda(target, &args) {
        Some(applied) => applied,
        None => {
            return None;
        },
    };
    let mut subst = Substitution::new();
    if !type_pattern_matches(&applied, actual, &mut subst) {
        return None;
    }
    Some((target.substitute_generics(&subst), subst))
}

/// The bounds that an impl places on `param`: the first entry naming it.
pub open spec fn find_bounds(entries: Seq<ParamBounds>, param: GenericParamId) -> Option<ParamBounds>
    decreases entries.len(),
{
    if entries.len() == 0 {
        None
    } else if entries[0].param == param {
        Some(entries[0])
    } else {
        find_bounds(entries.skip(1), param)
    }
}

/// Whether each trait argument of a candidate impl accepts the corresponding
/// argument the bound requires (under `subst`), threading the bindings
/// `target_subst` from one argument to the next.
pub open spec fn trait_args_match(
    expected: Seq<SpecType>,
    required: Seq<SpecType>,
    subst: Map<GenericParamId, SpecType>,
    target_subst: Map<GenericParamId, SpecType>,
) -> bool
    decreases expected.len(),
{
    if expected.len() == 0 || required.len() == 0 {
        true
    } else {
        match spec_type_pattern_matches(expected[0], subst_type(required[0], subst), target_subst) {
            Some(next) => trait_args_match(expected.skip(1), required.skip(1), subst, next),
            None => false,
        }
    }
}

/// What one (impl, bound) pair contributes to the candidates for the
/// constructor head `head` applied to `args`: the impl must implement the
/// bound's trait with as many arguments, its constructor pattern must identify
/// a target constructor of `actual`, that target applied to `args` must be
/// accepted by [`bounded_substitution`], the head must not already stand for
/// another constructor, and the impl's trait arguments must accept the bound's;
/// a candidate equal to one already found is not added again.
pub open spec fn consider_candidate(
    imp: &HirImpl,
    impls: Seq<&HirImpl>,
    fuel: nat,
    head: GenericParamId,
    args: Seq<SpecType>,
    actual: SpecType,
    cimpl: &HirImpl,
    bound: TraitBound,
    found: Seq<Map<GenericParamId, SpecType>>,
) -> Seq<Map<GenericParamId, SpecType>>
    decreases fuel, actual, 0nat, 0nat,
{
    if cimpl.trait_id != Some(bound.trait_id) || cimpl.trait_arg_types.len() != bound.type_args.len() {
        found
    } else {
        match spec_constructor_target_from_applied_type(cimpl.receiver_pattern, actual) {
            None => found,
            Some((target, target_subst)) => match spec_apply_constructor_pattern(target, args) {
                None => found,
                Some(applied) => match (if fuel == 0 {
                    None
                } else {
                    bounded_substitution(imp, applied, actual, impls, (fuel - 1) as nat)
                }) {
                    None => found,
                    Some(subst) => if subst.contains_key(head) && subst[head] != target {
                        found
                    } else {
                        let candidate = subst.insert(head, target);
                        if !trait_args_match(
                            view_types(cimpl.trait_arg_types@),
                            view_types(bound.type_args@),
                            candidate,
                            target_subst,
                        ) {
                            found
                        } else if found.contains(candidate) {
                            found
                        } else {
                            found.push(candidate)
                        }
                    },
                },
            },
        }
    }
}

/// [`consider_candidate`] for one impl and each bound in turn.
pub open spec fn candidates_for_bounds(
    imp: &HirImpl,
    impls: Seq<&HirImpl>,
    fuel: nat,
    head: GenericParamId,
    args: Seq<SpecType>,
    actual: SpecType,
    cimpl: &HirImpl,
    bounds: Seq<TraitBound>,
    found: Seq<Map<GenericParamId, SpecType>>,
) -> Seq<Map<GenericParamId, SpecType>>
    decreases fuel, actual, 1nat, bounds.len(),
{
    if bounds.len() == 0 {
        found
    } else {
        candidates_for_bounds(
            imp,
            impls,
            fuel,
            head,
            args,
            actual,
            cimpl,
            bounds.skip(1),
            consider_candidate(imp, impls, fuel, head, args, actual, cimpl, bounds[0], found),
        )
    }
}

/// [`candidates_for_bounds`] for each impl in turn.
pub open spec fn candidates_for_impls(
    imp: &HirImpl,
    impls: Seq<&HirImpl>,
    fuel: nat,
    head: GenericParamId,
    args: Seq<SpecType>,
    actual: SpecType,
    cimpls: Seq<&HirImpl>,
    bounds: Seq<TraitBound>,
    found: Seq<Map<GenericParamId, SpecType>>,
) -> Seq<Map<GenericParamId, SpecType>>
    decreases fuel, actual, 2nat, cimpls.len(),
{
    if cimpls.len() == 0 {
        found
    } else {
        candidates_for_impls(
            imp,
            impls,
            fuel,
            head,
            args,
            actual,
            cimpls.skip(1),
            bounds,
            candidates_for_bounds(imp, impls, fuel, head, args, actual, cimpls[0], bounds, found),
        )
    }
}

/// How a receiver pattern whose constructor heads are bounded generics binds
/// them for `actual`: plain matching if it succeeds; for nominal types, each
/// argument in turn (under the bindings found so far) and then the whole; for
/// an applied known constructor, its reduction; for a head that is a bounded
/// generic, the unique constructor that the impls of its bounds identify.
/// `fuel` bounds the nesting of reductions.
pub open spec fn bounded_substitution(
    imp: &HirImpl,
    expected: SpecType,
    actual: SpecType,
    impls: Seq<&HirImpl>,
    fuel: nat,
) -> Option<Map<GenericParamId, SpecType>>
    decreases fuel, actual, 3nat, 0nat,
{
    match try_match(expected, actual) {
        Some(m) => Some(m),
        None => match (expected, actual) {
            (SpecType::Struct { id: left, args: ea }, SpecType::Struct { id: right, args: aa }) => {
                bounded_nominal(imp, expected, actual, left, ea, right, aa, impls, fuel)
            },
            (SpecType::Struct { id: left, args: ea }, SpecType::Enum { id: right, args: aa }) => {
                bounded_nominal(imp, expected, actual, left, ea, right, aa, impls, fuel)
            },
            (SpecType::Enum { id: left, args: ea }, SpecType::Struct { id: right, args: aa }) => {
                bounded_nominal(imp, expected, actual, left, ea, right, aa, impls, fuel)
            },
            (SpecType::Enum { id: left, args: ea }, SpecType::Enum { id: right, args: aa }) => {
                bounded_nominal(imp, expected, actual, left, ea, right, aa, impls, fuel)
            },
            (SpecType::Apply { constructor, args }, _) => match spec_apply_constructor_pattern(
                *constructor,
                args,
            ) {
                Some(applied) => if fuel == 0 {
                    None
                } else {
                    bounded_substitution(imp, applied, actual, impls, (fuel - 1) as nat)
                },
                None => match *constructor {
                    SpecType::Generic(head) => match find_bounds(imp.bounds@, head) {
                        Some(entry) => {
                            let found = candidates_for_impls(
                                imp,
                                impls,
                                fuel,
                                head,
                                args,
                                actual,
                                impls,
                                entry.bounds@,
                                Seq::empty(),
                            );
                            if found.len() == 1 {
                                Some(found[0])
                            } else {
                                None
                            }
                        },
                        None => None,
                    },
                    _ => None,
                },
            },
            _ => None,
        },
    }
}

/// The nominal case of [`bounded_substitution`].
pub open spec fn bounded_nominal(
    imp: &HirImpl,
    expected: SpecType,
    actual: SpecType,
    left: DefId,
    ea: Seq<SpecType>,
    right: DefId,
    aa: Seq<SpecType>,
    impls: Seq<&HirImpl>,
    fuel: nat,
) -> Option<Map<GenericParamId, SpecType>>
    decreases fuel, aa, 1nat, 0nat,
{
    if left != right || ea.len() != aa.len() {
        None
    } else {
        match bounded_args(imp, ea, aa, impls, fuel, Map::empty()) {
            Some(m) => spec_type_pattern_matches(expected, actual, m),
            None => None,
        }
    }
}

/// [`bounded_substitution`] on each argument pair in turn, each expected
/// argument substituted by the bindings found so far, which each result extends.
pub open spec fn bounded_args(
    imp: &HirImpl,
    es: Seq<SpecType>,
    as_: Seq<SpecType>,
    impls: Seq<&HirImpl>,
    fuel: nat,
    m: Map<GenericParamId, SpecType>,
) -> Option<Map<GenericParamId, SpecType>>
    decreases fuel, as_, 0nat, 0nat,
{
    if es.len() == 0 || as_.len() == 0 {
        Some(m)
    } else {
        match bounded_substitution(imp, subst_type(es[0], m), as_[0], impls, fuel) {
            Some(nested) => bounded_args(
                imp,
                es.skip(1),
                as_.skip(1),
                impls,
                fuel,
                m.union_prefer_right(nested),
            ),
            None => None,
        }
    }
}

/// The mathematical values of a list of substitutions.
pub open spec fn view_substs(v: Seq<Substitution>) -> Seq<Map<GenericParamId, SpecType>> {
    Seq::new(v.len(), |i: int| v[i]@)
}

/// Every substitution in the list is well formed.
pub open spec fn all_wf(v: Seq<Substitution>) -> bool {
    forall|i: int| 0 <= i < v.len() ==> (#[trigger] v[i]).wf()
}

fn find_param_bounds<'a>(entries: &'a Vec<ParamBounds>, param: &GenericParamId) -> (r: Option<
    &'a ParamBounds,
>)
    ensures
        r matches Some(e) ==> find_bounds(entries@, *param) == Some(*e),
        r is None ==> find_bounds(entries@, *param) is None,
{
    let mut i: usize = 0;
    assert(entries@.skip(0) =~= entries@);
    while i < entries.len()
        invariant
            i <= entries@.len(),
            find_bounds(entries@, *param) == find_bounds(entries@.skip(i as int), *param),
        decreases entries.len() - i,
    {
        assert(entries@.skip(i as int)[0] == entries@[i as int]);
        assert(entries@.skip(i as int).skip(1) =~= entries@.skip(i + 1));
        if entries[i].param == *param {
            return Some(&entries[i]);
        }
        i = i + 1;
    }
    None
}

fn trait_args_match_exec(
    expected: &Vec<Type>,
    required: &Vec<Type>,
    subst: &Substitution,
    target_subst: &mut Substitution,
) -> (r: bool)
    requires
        subst.wf(),
        old(target_subst).wf(),
    ensures
        final(target_subst).wf(),
        r == trait_args_match(view_types(expected@), view_types(required@), subst@, old(target_subst)@),
{
    let ghost ev = view_types(expected@);
    let ghost rv = view_types(required@);
    let ghost t0 = target_subst@;
    let n = if expected.len() <= required.len() {
        expected.len()
    } else {
        required.len()
    };
    assert(ev.skip(0) =~= ev);
    assert(rv.skip(0) =~= rv);
    let mut i: usize = 0;
    while i < n
        invariant
            subst.wf(),
            target_subst.wf(),
            i <= n,
            n <= expected@.len(),
            n <= required@.len(),
            n == expected@.len() || n == required@.len(),
            ev == view_types(expected@),
            rv == view_types(required@),
            t0 == old(target_subst)@,
            trait_args_match(ev, rv, subst@, t0) == trait_args_match(
                ev.skip(i as int),
                rv.skip(i as int),
                subst@,
                target_subst@,
            ),
        decreases n - i,
    {
        assert(ev.skip(i as int)[0] == ev[i as int]);
        assert(rv.skip(i as int)[0] == rv[i as int]);
        assert(ev.skip(i as int).skip(1) =~= ev.skip(i + 1));
        assert(rv.skip(i as int).skip(1) =~= rv.skip(i + 1));
        let required_ty = required[i].substitute_generics(subst);
        let ghost prev = target_subst@;
        let ok = type_pattern_matches(&expected[i], &required_ty, target_subst);
        assert(trait_args_match(ev.skip(i as int), rv.skip(i as int), subst@, prev) == (ok
            && trait_args_match(ev.skip(i + 1), rv.skip(i + 1), subst@, target_subst@)));
        if !ok {
            return false;
        }
        i = i + 1;
    }
    assert(ev.skip(n as int).len() == 0 || rv.skip(n as int).len() == 0);
    true
}

fn contains_subst(found: &Vec<Substitution>, s: &Substitution) -> (r: bool)
    requires
        all_wf(found@),
        s.wf(),
    ensures
        r == view_substs(found@).contains(s@),
{
    let mut i: usize = 0;
    while i < found.len()
        invariant
            all_wf(found@),
            s.wf(),
            i <= found@.len(),
            forall|j: int| 0 <= j < i ==> view_substs(found@)[j] != s@,
        decreases found.len() - i,
    {
        if found[i].same_as(s) {
            assert(view_substs(found@)[i as int] == s@);
            return true;
        }
        i = i + 1;
    }
    false
}

fn consider_candidate_exec(
    imp: &HirImpl,
    impls: &[&HirImpl],
    fuel: u64,
    head: &GenericParamId,
    args: &Vec<Type>,
    actual: &Type,
    cimpl: &HirImpl,
    bound: &TraitBound,
    found: &mut Vec<Substitution>,
)
    requires
        all_wf(old(found)@),
    ensures
        all_wf(final(found)@),
        view_substs(final(found)@) == consider_candidate(
            imp,
            impls@,
            fuel as nat,
            *head,
            view_types(args@),
            actual@,
            cimpl,
            *bound,
            view_substs(old(found)@),
        ),
    decreases fuel, actual, 0nat, 0nat,
{
    if cimpl.trait_id != Some(bound.trait_id) || cimpl.trait_arg_types.len()
        != bound.type_args.len() {
        return;
    }
    let (target, mut target_subst) = match constructor_target_from_applied_type(
        &cimpl.receiver_pattern,
        actual,
    ) {
        Some(found_target) => found_target,
        None => {
            return;
        },
    };
    let applied = match apply_constructor_pattern(&target, args) {
        Some(applied) => applied,
        None => {
            return;
        },
    };
    if fuel == 0 {
        return;
    }
    let mut subst = match bounded_receiver_substitution(imp, &applied, actual, impls, fuel - 1) {
        Some(subst) => subst,
        None => {
            return;
        },
    };
    if let Some(existing) = subst.get(head) {
        if !type_eq(existing, &target) {
            return;
        }
    }
    let ghost target_view = target@;
    subst.insert(*head, target);
    if !trait_args_match_exec(&cimpl.trait_arg_types, &bound.type_args, &subst, &mut target_subst) {
        return;
    }
    if contains_subst(found, &subst) {
        return;
    }
    let ghost before = view_substs(found@);
    found.push(subst);
    assert(view_substs(found@) =~= before.push(found@.last()@));
}

fn bounded_nominal_exec(
    imp: &HirImpl,
    expected: &Type,
    actual: &Type,
    left: DefId,
    ea: &Vec<Type>,
    right: DefId,
    aa: &Vec<Type>,
    impls: &[&HirImpl],
    fuel: u64,
) -> (r: Option<Substitution>)
    ensures
        r matches Some(s) ==> s.wf() && bounded_nominal(
            imp,
            expected@,
            actual@,
            left,
            view_types(ea@),
            right,
            view_types(aa@),
            impls@,
            fuel as nat,
        ) == Some(s@),
        r is None ==> bounded_nominal(
            imp,
            expected@,
            actual@,
            left,
            view_types(ea@),
            right,
            view_types(aa@),
            impls@,
            fuel as nat,
        ) is None,
    decreases fuel, aa, 1nat, 0nat,
{
    if left != right || ea.len() != aa.len() {
        return None;
    }
    let ghost ev = view_types(ea@);
    let ghost av = view_types(aa@);
    let mut subst = Substitution::new();
    assert(ev.skip(0) =~= ev);
    assert(av.skip(0) =~= av);
    let mut i: usize = 0;
    while i < ea.len()
        invariant
            subst.wf(),
            i <= ea@.len(),
            ea@.len() == aa@.len(),
            ev == view_types(ea@),
            av == view_types(aa@),
            bounded_args(imp, ev, av, impls@, fuel as nat, Map::empty()) == bounded_args(
                imp,
                ev.skip(i as int),
                av.skip(i as int),
                impls@,
                fuel as nat,
                subst@,
            ),
        decreases ea.len() - i,
    {
        assert(ev.skip(i as int)[0] == ev[i as int]);
        assert(av.skip(i as int)[0] == av[i as int]);
        assert(ev.skip(i as int).skip(1) =~= ev.skip(i + 1));
        assert(av.skip(i as int).skip(1) =~= av.skip(i + 1));
        let expected_arg = ea[i].substitute_generics(&subst);
        match bounded_receiver_substitution(imp, &expected_arg, &aa[i], impls, fuel) {
            Some(nested) => {
                subst.extend(&nested);
            },
            None => {
                return None;
            },
        }
        i = i + 1;
    }
    assert(ev.skip(i as int).len() == 0);
    if type_pattern_matches(expected, actual, &mut subst) {
        Some(subst)
    } else {
        None
    }
}

fn bounded_receiver_substitution(
    imp: &HirImpl,
    expected: &Type,
    actual: &Type,
    impls: &[&HirImpl],
    fuel: u64,
) -> (r: Option<Substitution>)
    ensures
        r matches Some(s) ==> s.wf() && bounded_substitution(
            imp,
            expected@,
            actual@,
            impls@,
            fuel as nat,
        ) == Some(s@),
        r is None ==> bounded_substitution(imp, expected@, actual@, impls@, fuel as nat) is None,
        try_match(expected@, actual@) matches Some(m) ==> (r matches Some(s) && s@ == m),
    decreases fuel, actual, 3nat, 0nat,
{
    proof {
        if try_match(expected@, actual@) is Some {
            crate::matching_laws::lemma_bounded_direct_match(imp, expected@, actual@, impls@, fuel as nat);
        }
    }
    let mut subst = Substitution::new();
    if type_pattern_matches(expected, actual, &mut subst) {
        return Some(subst);
    }
    match (expected, actual) {
        (Type::Struct { id: left, args: ea }, Type::Struct { id: right, args: aa }) => {
            assert(expected@ == SpecType::Struct { id: *left, args: view_types(ea@) });
            assert(actual@ == SpecType::Struct { id: *right, args: view_types(aa@) });
            return bounded_nominal_exec(imp, expected, actual, *left, ea, *right, aa, impls, fuel);
        },
        (Type::Struct { id: left, args: ea }, Type::Enum { id: right, args: aa }) => {
            assert(expected@ == SpecType::Struct { id: *left, args: view_types(ea@) });
            assert(actual@ == SpecType::Enum { id: *right, args: view_types(aa@) });
            return bounded_nominal_exec(imp, expected, actual, *left, ea, *right, aa, impls, fuel);
        },
        (Type::Enum { id: left, args: ea }, Type::Struct { id: right, args: aa }) => {
            assert(expected@ == SpecType::Enum { id: *left, args: view_types(ea@) });
            assert(actual@ == SpecType::Struct { id: *right, args: view_types(aa@) });
            return bounded_nominal_exec(imp, expected, actual, *left, ea, *right, aa, impls, fuel);
        },
        (Type::Enum { id: left, args: ea }, Type::Enum { id: right, args: aa }) => {
            assert(expected@ == SpecType::Enum { id: *left, args: view_types(ea@) });
            assert(actual@ == SpecType::Enum { id: *right, args: view_types(aa@) });
            return bounded_nominal_exec(imp, expected, actual, *left, ea, *right, aa, impls, fuel);
        },
        _ => {},
    }
    let Type::Apply { constructor, args } = expected else {
        return None;
    };
    assert(expected@ == SpecType::Apply { constructor: Box::new(constructor@), args: view_types(args@) });
    if let Some(applied) = apply_constructor_pattern(constructor, args) {
        if fuel == 0 {
            return None;
        }
        return bounded_receiver_substitution(imp, &applied, actual, impls, fuel - 1);
    }
    let Type::Generic(head) = &**constructor else {
        return None;
    };
    let entry = match find_param_bounds(&imp.bounds, head) {
        Some(entry) => entry,
        None => {
            return None;
        },
    };
    let ghost bounds = entry.bounds@;
    let ghost argv = view_types(args@);
    let ghost total = candidates_for_impls(
        imp,
        impls@,
        fuel as nat,
        *head,
        argv,
        actual@,
        impls@,
        bounds,
        Seq::empty(),
    );
    let mut found: Vec<Substitution> = Vec::new();
    assert(impls@.skip(0) =~= impls@);
    assert(view_substs(found@) =~= Seq::<Map<GenericParamId, SpecType>>::empty());
    let mut i: usize = 0;
    while i < impls.len()
        invariant
            i <= impls@.len(),
            all_wf(found@),
            bounds == entry.bounds@,
            argv == view_types(args@),
            total == candidates_for_impls(
                imp,
                impls@,
                fuel as nat,
                *head,
                argv,
                actual@,
                impls@.skip(i as int),
                bounds,
                view_substs(found@),
            ),
        decreases impls.len() - i,
    {
        let cimpl = impls[i];
        let ghost start = view_substs(found@);
        assert(impls@.skip(i as int)[0] == impls@[i as int]);
        assert(impls@.skip(i as int).skip(1) =~= impls@.skip(i + 1));
        assert(bounds.skip(0) =~= bounds);
        let mut j: usize = 0;
        while j < entry.bounds.len()
            invariant
                j <= bounds.len(),
                bounds == entry.bounds@,
                argv == view_types(args@),
                all_wf(found@),
                candidates_for_bounds(
                    imp,
                    impls@,
                    fuel as nat,
                    *head,
                    argv,
                    actual@,
                    cimpl,
                    bounds,
                    start,
                ) == candidates_for_bounds(
                    imp,
                    impls@,
                    fuel as nat,
                    *head,
                    argv,
                    actual@,
                    cimpl,
                    bounds.skip(j as int),
                    view_substs(found@),
                ),
            decreases entry.bounds.len() - j,
        {
            assert(bounds.skip(j as int)[0] == bounds[j as int]);
            assert(bounds.skip(j as int).skip(1) =~= bounds.skip(j + 1));
            consider_candidate_exec(
                imp,
                impls,
                fuel,
                head,
                args,
                actual,
                cimpl,
                &entry.bounds[j],
                &mut found,
            );
            j = j + 1;
        }
        assert(bounds.skip(j as int).len() == 0);
        i = i + 1;
    }
    assert(impls@.skip(i as int).len() == 0);
    if found.len() == 1 {
        let r = found.pop();
        assert(view_substs(found@).len() == 0);
        r
    } else {
        None
    }
}

/// How the impl's receiver pattern binds its generics for `actual`: directly
/// when the pattern accepts it, or else, for an exact pattern, by identifying
/// its bounded constructor heads through the constructor impls `impls`.
pub open spec fn spec_impl_receiver_pattern_substitution(
    imp: &HirImpl,
    actual: SpecType,
    impls: Seq<&HirImpl>,
) -> Option<Map<GenericParamId, SpecType>> {
    match spec_receiver_pattern_substitution(imp.receiver_pattern, actual) {
        Some(m) => Some(m),
        None => match imp.receiver_pattern {
            HirImplReceiverPattern::Exact(expected) => bounded_substitution(
                imp,
                expected@,
                actual,
                impls,
                REDUCTION_FUEL as nat,
            ),
            _ => None,
        },
    }
}

/// Matches a higher-kinded blanket receiver using its constructor bounds. For
/// `F T where F _: Foldable`, the `Foldable` impls among `impls` determine
/// whether a concrete carrier belongs to one constructor or a section such as
/// `Result _, E`; without exactly one such constructor there is no match.
pub fn impl_receiver_pattern_substitution(imp: &HirImpl, actual: &Type, impls: &[&HirImpl]) -> (r:
    Option<Substitution>)
    ensures
        r matches Some(s) ==> s.wf() && spec_impl_receiver_pattern_substitution(imp, actual@, impls@)
            == Some(s@),
        r is None ==> spec_impl_receiver_pattern_substitution(imp, actual@, impls@) is None,
{
    let pattern = &imp.receiver_pattern;
    if let Some(subst) = receiver_pattern_substitution(pattern, actual) {
        return Some(subst);
    }
    let HirImplReceiverPattern::Exact(expected) = pattern else {
        return None;
    };
    bounded_receiver_substitution(imp, expected, actual, impls, REDUCTION_FUEL)
}

} // verus!
