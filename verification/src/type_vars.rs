use vstd::prelude::*;
use crate::types::{
    clone_kinds, clone_type, view_captures, view_type, view_types, CaptureKind, FunctionCapture,
    SpecCapture, SpecType, Type,
};

verus! {

// ---------------------------------------------------------------------------
// Inference variables inside types.
// ---------------------------------------------------------------------------

/// Whether the inference variable `v` occurs in `t`.
pub open spec fn occurs(t: SpecType, v: u32) -> bool
    decreases t,
{
    match t {
        SpecType::TypeVar(x) => x == v,
        SpecType::Struct { args, .. } => occurs_in(args, v),
        SpecType::Enum { args, .. } => occurs_in(args, v),
        SpecType::Tuple(items) => occurs_in(items, v),
        SpecType::Function { params, ret, captures, .. } => occurs_in(params, v) || occurs(*ret, v)
            || occurs_in_captures(captures, v),
        SpecType::Slice(inner) => occurs(*inner, v),
        SpecType::Array(inner, _) => occurs(*inner, v),
        SpecType::Pointer(inner) => occurs(*inner, v),
        SpecType::Reference { inner, .. } => occurs(*inner, v),
        SpecType::Apply { constructor, args } => occurs(*constructor, v) || occurs_in(args, v),
        SpecType::Lambda { body, .. } => occurs(*body, v),
        SpecType::Projection { ty, trait_args, .. } => occurs(*ty, v) || occurs_in(trait_args, v),
        _ => false,
    }
}

/// Whether `v` occurs in one of `ts`.
pub open spec fn occurs_in(ts: Seq<SpecType>, v: u32) -> bool
    decreases ts,
{
    exists|i: int| 0 <= i < ts.len() && occurs(ts[i], v)
}

pub open spec fn occurs_in_captures(cs: Seq<SpecCapture>, v: u32) -> bool
    decreases cs,
{
    exists|i: int| 0 <= i < cs.len() && occurs(cs[i].ty, v)
}

/// `out` holds what `before` held, first and in order, then the variables of
/// `added` that `before` lacked, each once.
pub open spec fn collected(before: Seq<u32>, out: Seq<u32>, added: spec_fn(u32) -> bool) -> bool {
    &&& before.len() <= out.len()
    &&& out.subrange(0, before.len() as int) == before
    &&& forall|v: u32| out.contains(v) <==> before.contains(v) || added(v)
    &&& before.no_duplicates() ==> out.no_duplicates()
}

pub(crate) proof fn lemma_collected_trans(a: Seq<u32>, b: Seq<u32>, c: Seq<u32>, f: spec_fn(u32) -> bool, g: spec_fn(u32) -> bool)
    requires
        collected(a, b, f),
        collected(b, c, g),
    ensures
        collected(a, c, |v: u32| f(v) || g(v)),
{
    assert(c.subrange(0, a.len() as int) =~= b.subrange(0, a.len() as int)) by {
        assert forall|i: int| 0 <= i < a.len() implies c.subrange(0, a.len() as int)[i] == b.subrange(
            0,
            a.len() as int,
        )[i] by {
            assert(c.subrange(0, b.len() as int)[i] == b[i]);
        }
    }
}

/// A collection stays one when its description is restated.
pub(crate) proof fn lemma_collected_same(a: Seq<u32>, b: Seq<u32>, f: spec_fn(u32) -> bool, g: spec_fn(u32) -> bool)
    requires
        collected(a, b, f),
        forall|v: u32| #[trigger] f(v) == g(v),
    ensures
        collected(a, b, g),
{
}

/// Adds `v` to `out` unless it is there already.
pub(crate) fn add_var(out: &mut Vec<u32>, v: u32)
    ensures
        collected(old(out)@, final(out)@, |x: u32| x == v),
{
    let mut i: usize = 0;
    while i < out.len()
        invariant
            i <= out@.len(),
            forall|j: int| 0 <= j < i ==> out@[j] != v,
        decreases out.len() - i,
    {
        if out[i] == v {
            assert(out@.contains(v));
            assert(out@.subrange(0, out@.len() as int) =~= out@);
            return;
        }
        i = i + 1;
    }
    let ghost before = out@;
    out.push(v);
    assert(out@.subrange(0, before.len() as int) =~= before);
    assert forall|x: u32| out@.contains(x) <==> before.contains(x) || x == v by {
        if out@.contains(x) {
            let j = choose|j: int| 0 <= j < out@.len() && out@[j] == x;
            if j < before.len() {
                assert(before[j] == x);
            }
        }
        if before.contains(x) {
            let j = choose|j: int| 0 <= j < before.len() && before[j] == x;
            assert(out@[j] == x);
        }
        if x == v {
            assert(out@[before.len() as int] == v);
        }
    }
}

/// Adds the variables of `t` to `out`.
pub fn collect_vars(t: &Type, out: &mut Vec<u32>)
    ensures
        collected(old(out)@, final(out)@, |v: u32| occurs(t@, v)),
    decreases t,
{
    let ghost before = out@;
    match t {
        Type::TypeVar(x) => {
            add_var(out, *x);
        },
        Type::Struct { args, .. } => {
            collect_vars_in(args, out);
        },
        Type::Enum { args, .. } => {
            collect_vars_in(args, out);
        },
        Type::Tuple(items) => {
            collect_vars_in(items, out);
        },
        Type::Function { params, ret, captures, .. } => {
            let ghost s0 = out@;
            collect_vars_in(params, out);
            let ghost s1 = out@;
            collect_vars(ret, out);
            let ghost s2 = out@;
            collect_vars_in_captures(captures, out);
            proof {
                lemma_collected_trans(
                    s0,
                    s1,
                    s2,
                    |v: u32| occurs_in(view_types(params@), v),
                    |v: u32| occurs(ret@, v),
                );
                lemma_collected_trans(
                    s0,
                    s2,
                    out@,
                    |v: u32| occurs_in(view_types(params@), v) || occurs(ret@, v),
                    |v: u32| occurs_in_captures(view_captures(captures@), v),
                );
            }
        },
        Type::Slice(inner) => {
            collect_vars(inner, out);
        },
        Type::Array(inner, _) => {
            collect_vars(inner, out);
        },
        Type::Pointer(inner) => {
            collect_vars(inner, out);
        },
        Type::Reference { inner, .. } => {
            collect_vars(inner, out);
        },
        Type::Apply { constructor, args } => {
            let ghost s0 = out@;
            collect_vars(constructor, out);
            let ghost s1 = out@;
            collect_vars_in(args, out);
            proof {
                lemma_collected_trans(
                    s0,
                    s1,
                    out@,
                    |v: u32| occurs(constructor@, v),
                    |v: u32| occurs_in(view_types(args@), v),
                );
            }
        },
        Type::Lambda { body, .. } => {
            collect_vars(body, out);
        },
        Type::Projection { ty, trait_args, .. } => {
            let ghost s0 = out@;
            collect_vars(ty, out);
            let ghost s1 = out@;
            collect_vars_in(trait_args, out);
            proof {
                lemma_collected_trans(
                    s0,
                    s1,
                    out@,
                    |v: u32| occurs(ty@, v),
                    |v: u32| occurs_in(view_types(trait_args@), v),
                );
            }
        },
        _ => {
            assert(out@.subrange(0, out@.len() as int) =~= out@);
        },
    }
    proof {
        assert forall|v: u32| out@.contains(v) <==> before.contains(v) || occurs(t@, v) by {}
    }
}

/// Adds the variables of each of `ts` to `out`.
pub fn collect_vars_in(ts: &Vec<Type>, out: &mut Vec<u32>)
    ensures
        collected(old(out)@, final(out)@, |v: u32| occurs_in(view_types(ts@), v)),
    decreases ts,
{
    let ghost before = out@;
    assert(before.subrange(0, before.len() as int) =~= before);
    let mut i: usize = 0;
    while i < ts.len()
        invariant
            i <= ts@.len(),
            collected(before, out@, |v: u32| exists|j: int| 0 <= j < i && occurs(ts@[j]@, v)),
        decreases ts.len() - i,
    {
        let ghost s = out@;
        collect_vars(&ts[i], out);
        proof {
            lemma_collected_trans(
                before,
                s,
                out@,
                |v: u32| exists|j: int| 0 <= j < i && occurs(ts@[j]@, v),
                |v: u32| occurs(ts@[i as int]@, v),
            );
            assert forall|v: u32|
                (exists|j: int| 0 <= j < i && occurs(ts@[j]@, v)) || occurs(ts@[i as int]@, v) <==> (exists|
                    j: int,
                | 0 <= j < i + 1 && occurs(ts@[j]@, v)) by {
                if exists|j: int| 0 <= j < i + 1 && occurs(ts@[j]@, v) {
                    let j = choose|j: int| 0 <= j < i + 1 && occurs(ts@[j]@, v);
                    if j < i {
                    }
                }
            }
        }
        i = i + 1;
    }
    proof {
        assert forall|v: u32|
            (exists|j: int| 0 <= j < ts@.len() && occurs(ts@[j]@, v)) <==> occurs_in(view_types(ts@), v) by {
            if occurs_in(view_types(ts@), v) {
                let j = choose|j: int| 0 <= j < view_types(ts@).len() && occurs(view_types(ts@)[j], v);
                assert(occurs(ts@[j]@, v));
            }
            if exists|j: int| 0 <= j < ts@.len() && occurs(ts@[j]@, v) {
                let j = choose|j: int| 0 <= j < ts@.len() && occurs(ts@[j]@, v);
                assert(view_types(ts@)[j] == ts@[j]@);
            }
        }
    }
}

fn collect_vars_in_captures(cs: &Vec<FunctionCapture>, out: &mut Vec<u32>)
    ensures
        collected(old(out)@, final(out)@, |v: u32| occurs_in_captures(view_captures(cs@), v)),
    decreases cs,
{
    let ghost before = out@;
    assert(before.subrange(0, before.len() as int) =~= before);
    let mut i: usize = 0;
    while i < cs.len()
        invariant
            i <= cs@.len(),
            collected(before, out@, |v: u32| exists|j: int| 0 <= j < i && occurs(cs@[j].ty@, v)),
        decreases cs.len() - i,
    {
        let ghost s = out@;
        collect_vars(&cs[i].ty, out);
        proof {
            lemma_collected_trans(
                before,
                s,
                out@,
                |v: u32| exists|j: int| 0 <= j < i && occurs(cs@[j].ty@, v),
                |v: u32| occurs(cs@[i as int].ty@, v),
            );
            assert forall|v: u32|
                (exists|j: int| 0 <= j < i && occurs(cs@[j].ty@, v)) || occurs(cs@[i as int].ty@, v) <==> (exists|
                    j: int,
                | 0 <= j < i + 1 && occurs(cs@[j].ty@, v)) by {
                if exists|j: int| 0 <= j < i + 1 && occurs(cs@[j].ty@, v) {
                    let j = choose|j: int| 0 <= j < i + 1 && occurs(cs@[j].ty@, v);
                    if j < i {
                    }
                }
            }
        }
        i = i + 1;
    }
    proof {
        assert forall|v: u32|
            (exists|j: int| 0 <= j < cs@.len() && occurs(cs@[j].ty@, v)) <==> occurs_in_captures(
                view_captures(cs@),
                v,
            ) by {
            if occurs_in_captures(view_captures(cs@), v) {
                let j = choose|j: int|
                    0 <= j < view_captures(cs@).len() && occurs(view_captures(cs@)[j].ty, v);
                assert(occurs(cs@[j].ty@, v));
            }
            if exists|j: int| 0 <= j < cs@.len() && occurs(cs@[j].ty@, v) {
                let j = choose|j: int| 0 <= j < cs@.len() && occurs(cs@[j].ty@, v);
                assert(view_captures(cs@)[j].ty == cs@[j].ty@);
            }
        }
    }
}

// ---------------------------------------------------------------------------
// Replacing inference variables.
// ---------------------------------------------------------------------------

/// The type bound to `v`: the first binding for it.
pub open spec fn var_lookup(pairs: Seq<(u32, SpecType)>, v: u32) -> Option<SpecType>
    decreases pairs.len(),
{
    if pairs.len() == 0 {
        None
    } else if pairs[0].0 == v {
        Some(pairs[0].1)
    } else {
        var_lookup(pairs.drop_first(), v)
    }
}

/// Bindings as the mathematical values of their types.
pub open spec fn view_var_pairs(pairs: Seq<(u32, Type)>) -> Seq<(u32, SpecType)> {
    pairs.map_values(|p: (u32, Type)| (p.0, view_type(p.1)))
}

/// Replaces every inference variable that `pairs` binds by its binding.
pub open spec fn subst_vars(t: SpecType, pairs: Seq<(u32, SpecType)>) -> SpecType
    decreases t,
{
    match t {
        SpecType::TypeVar(x) => match var_lookup(pairs, x) {
            Some(r) => r,
            None => t,
        },
        SpecType::Struct { id, args } => SpecType::Struct { id, args: subst_vars_in(args, pairs) },
        SpecType::Enum { id, args } => SpecType::Enum { id, args: subst_vars_in(args, pairs) },
        SpecType::Tuple(items) => SpecType::Tuple(subst_vars_in(items, pairs)),
        SpecType::Function { params, ret, safety, callable_kind, captures } => SpecType::Function {
            params: subst_vars_in(params, pairs),
            ret: Box::new(subst_vars(*ret, pairs)),
            safety,
            callable_kind,
            captures: subst_vars_in_captures(captures, pairs),
        },
        SpecType::Slice(inner) => SpecType::Slice(Box::new(subst_vars(*inner, pairs))),
        SpecType::Array(inner, len) => SpecType::Array(Box::new(subst_vars(*inner, pairs)), len),
        SpecType::Pointer(inner) => SpecType::Pointer(Box::new(subst_vars(*inner, pairs))),
        SpecType::Reference { mutable, inner } => SpecType::Reference {
            mutable,
            inner: Box::new(subst_vars(*inner, pairs)),
        },
        SpecType::Apply { constructor, args } => SpecType::Apply {
            constructor: Box::new(subst_vars(*constructor, pairs)),
            args: subst_vars_in(args, pairs),
        },
        SpecType::Lambda { params, body } => SpecType::Lambda {
            params,
            body: Box::new(subst_vars(*body, pairs)),
        },
        SpecType::Projection { ty, trait_id, assoc_type, trait_args } => SpecType::Projection {
            ty: Box::new(subst_vars(*ty, pairs)),
            trait_id,
            assoc_type,
            trait_args: subst_vars_in(trait_args, pairs),
        },
        _ => t,
    }
}

pub open spec fn subst_vars_in(ts: Seq<SpecType>, pairs: Seq<(u32, SpecType)>) -> Seq<SpecType>
    decreases ts,
{
    Seq::new(ts.len(), |i: int| if 0 <= i < ts.len() { subst_vars(ts[i], pairs) } else { SpecType::Unit })
}

pub open spec fn subst_vars_in_captures(cs: Seq<SpecCapture>, pairs: Seq<(u32, SpecType)>) -> Seq<
    SpecCapture,
>
    decreases cs,
{
    Seq::new(
        cs.len(),
        |i: int|
            if 0 <= i < cs.len() {
                SpecCapture { kind: cs[i].kind, ty: subst_vars(cs[i].ty, pairs) }
            } else {
                SpecCapture { kind: CaptureKind::Move, ty: SpecType::Unit }
            },
    )
}

/// The binding a lookup finds is one of the bindings given.
proof fn lemma_var_lookup_found(pairs: Seq<(u32, SpecType)>, x: u32)
    ensures
        var_lookup(pairs, x) matches Some(b) ==> exists|i: int|
            0 <= i < pairs.len() && (#[trigger] pairs[i]).0 == x && pairs[i].1 == b,
    decreases pairs.len(),
{
    if pairs.len() > 0 && pairs[0].0 != x {
        lemma_var_lookup_found(pairs.drop_first(), x);
        if var_lookup(pairs, x) is Some {
            let i = choose|i: int|
                0 <= i < pairs.drop_first().len() && (#[trigger] pairs.drop_first()[i]).0 == x
                    && pairs.drop_first()[i].1 == var_lookup(pairs, x)->0;
            assert(pairs[i + 1] == pairs.drop_first()[i]);
        }
    }
}

/// Replacing eliminates a bound variable: once `v` is bound and no binding
/// mentions it, it occurs nowhere in the result.
pub proof fn lemma_subst_vars_eliminates(t: SpecType, pairs: Seq<(u32, SpecType)>, v: u32)
    requires
        var_lookup(pairs, v) is Some,
        forall|i: int| 0 <= i < pairs.len() ==> !occurs(#[trigger] pairs[i].1, v),
    ensures
        !occurs(subst_vars(t, pairs), v),
    decreases t,
{
    match t {
        SpecType::TypeVar(x) => {
            lemma_var_lookup_found(pairs, x);
            if let Some(b) = var_lookup(pairs, x) {
                let i = choose|i: int| 0 <= i < pairs.len() && (#[trigger] pairs[i]).0 == x && pairs[i].1 == b;
                assert(!occurs(pairs[i].1, v));
                assert(subst_vars(t, pairs) == b);
            } else {
                assert(x != v);
                assert(subst_vars(t, pairs) == t);
            }
        },
        SpecType::Struct { id, args } => {
            assert forall|i: int| 0 <= i < args.len() implies !occurs(
                #[trigger] subst_vars_in(args, pairs)[i],
                v,
            ) by {
                lemma_subst_vars_eliminates(args[i], pairs, v);
            }
            assert(!occurs_in(subst_vars_in(args, pairs), v));
        },
        SpecType::Enum { id, args } => {
            assert forall|i: int| 0 <= i < args.len() implies !occurs(
                #[trigger] subst_vars_in(args, pairs)[i],
                v,
            ) by {
                lemma_subst_vars_eliminates(args[i], pairs, v);
            }
            assert(!occurs_in(subst_vars_in(args, pairs), v));
        },
        SpecType::Tuple(items) => {
            assert forall|i: int| 0 <= i < items.len() implies !occurs(
                #[trigger] subst_vars_in(items, pairs)[i],
                v,
            ) by {
                lemma_subst_vars_eliminates(items[i], pairs, v);
            }
            assert(!occurs_in(subst_vars_in(items, pairs), v));
        },
        SpecType::Function { params, ret, captures, .. } => {
            assert forall|i: int| 0 <= i < params.len() implies !occurs(
                #[trigger] subst_vars_in(params, pairs)[i],
                v,
            ) by {
                lemma_subst_vars_eliminates(params[i], pairs, v);
            }
            assert(!occurs_in(subst_vars_in(params, pairs), v));
            assert forall|i: int| 0 <= i < captures.len() implies !occurs(
                (#[trigger] subst_vars_in_captures(captures, pairs)[i]).ty,
                v,
            ) by {
                lemma_subst_vars_eliminates(captures[i].ty, pairs, v);
            }
            assert(!occurs_in_captures(subst_vars_in_captures(captures, pairs), v));
            lemma_subst_vars_eliminates(*ret, pairs, v);
        },
        SpecType::Slice(inner) => {
            lemma_subst_vars_eliminates(*inner, pairs, v);
        },
        SpecType::Array(inner, _) => {
            lemma_subst_vars_eliminates(*inner, pairs, v);
        },
        SpecType::Pointer(inner) => {
            lemma_subst_vars_eliminates(*inner, pairs, v);
        },
        SpecType::Reference { inner, .. } => {
            lemma_subst_vars_eliminates(*inner, pairs, v);
        },
        SpecType::Apply { constructor, args } => {
            assert forall|i: int| 0 <= i < args.len() implies !occurs(
                #[trigger] subst_vars_in(args, pairs)[i],
                v,
            ) by {
                lemma_subst_vars_eliminates(args[i], pairs, v);
            }
            assert(!occurs_in(subst_vars_in(args, pairs), v));
            lemma_subst_vars_eliminates(*constructor, pairs, v);
        },
        SpecType::Lambda { body, .. } => {
            lemma_subst_vars_eliminates(*body, pairs, v);
        },
        SpecType::Projection { ty, trait_args, .. } => {
            assert forall|i: int| 0 <= i < trait_args.len() implies !occurs(
                #[trigger] subst_vars_in(trait_args, pairs)[i],
                v,
            ) by {
                lemma_subst_vars_eliminates(trait_args[i], pairs, v);
            }
            assert(!occurs_in(subst_vars_in(trait_args, pairs), v));
            lemma_subst_vars_eliminates(*ty, pairs, v);
        },
        _ => {},
    }
}

/// The type bound to `v`, if any.
pub fn lookup_var(pairs: &Vec<(u32, Type)>, v: u32) -> (r: Option<&Type>)
    ensures
        match var_lookup(view_var_pairs(pairs@), v) {
            Some(t) => r matches Some(x) && x@ == t,
            None => r is None,
        },
        r is None <==> forall|i: int| 0 <= i < pairs@.len() ==> (#[trigger] pairs@[i]).0 != v,
        r matches Some(x) ==> exists|i: int|
            0 <= i < pairs@.len() && (#[trigger] pairs@[i]).0 == v && x@ == pairs@[i].1@ && forall|j: int|
                0 <= j < i ==> (#[trigger] pairs@[j]).0 != v,
{
    let ghost vp = view_var_pairs(pairs@);
    let mut i: usize = 0;
    assert(vp.skip(0) =~= vp);
    while i < pairs.len()
        invariant
            i <= pairs@.len(),
            vp == view_var_pairs(pairs@),
            var_lookup(vp, v) == var_lookup(vp.skip(i as int), v),
            forall|j: int| 0 <= j < i ==> (#[trigger] pairs@[j]).0 != v,
        decreases pairs.len() - i,
    {
        assert(vp.skip(i as int)[0] == vp[i as int]);
        assert(vp.skip(i as int).drop_first() =~= vp.skip(i + 1));
        if pairs[i].0 == v {
            return Some(&pairs[i].1);
        }
        i = i + 1;
    }
    None
}

/// Replaces the inference variables that `pairs` binds.
pub fn substitute_vars(t: &Type, pairs: &Vec<(u32, Type)>) -> (r: Type)
    ensures
        r@ == subst_vars(t@, view_var_pairs(pairs@)),
    decreases t,
{
    match t {
        Type::TypeVar(x) => match lookup_var(pairs, *x) {
            Some(b) => clone_type(b),
            None => Type::TypeVar(*x),
        },
        Type::Struct { id, args } => Type::Struct { id: *id, args: substitute_vars_in(args, pairs) },
        Type::Enum { id, args } => Type::Enum { id: *id, args: substitute_vars_in(args, pairs) },
        Type::Tuple(items) => Type::Tuple(substitute_vars_in(items, pairs)),
        Type::Function { params, ret, safety, callable_kind, captures } => Type::Function {
            params: substitute_vars_in(params, pairs),
            ret: Box::new(substitute_vars(ret, pairs)),
            safety: *safety,
            callable_kind: *callable_kind,
            captures: substitute_vars_in_captures(captures, pairs),
        },
        Type::Slice(inner) => Type::Slice(Box::new(substitute_vars(inner, pairs))),
        Type::Array(inner, len) => Type::Array(Box::new(substitute_vars(inner, pairs)), *len),
        Type::Pointer(inner) => Type::Pointer(Box::new(substitute_vars(inner, pairs))),
        Type::Reference { mutable, inner } => Type::Reference {
            mutable: *mutable,
            inner: Box::new(substitute_vars(inner, pairs)),
        },
        Type::Apply { constructor, args } => Type::Apply {
            constructor: Box::new(substitute_vars(constructor, pairs)),
            args: substitute_vars_in(args, pairs),
        },
        Type::Lambda { params, body } => Type::Lambda {
            params: clone_kinds(params),
            body: Box::new(substitute_vars(body, pairs)),
        },
        Type::Projection { ty, trait_id, assoc_type, trait_args } => Type::Projection {
            ty: Box::new(substitute_vars(ty, pairs)),
            trait_id: *trait_id,
            assoc_type: *assoc_type,
            trait_args: substitute_vars_in(trait_args, pairs),
        },
        _ => clone_type(t),
    }
}

/// [`substitute_vars`] on each element.
pub fn substitute_vars_in(ts: &Vec<Type>, pairs: &Vec<(u32, Type)>) -> (r: Vec<Type>)
    ensures
        view_types(r@) == subst_vars_in(view_types(ts@), view_var_pairs(pairs@)),
    decreases ts,
{
    let mut out: Vec<Type> = Vec::new();
    let mut i: usize = 0;
    while i < ts.len()
        invariant
            i <= ts@.len(),
            out@.len() == i,
            forall|j: int|
                0 <= j < i ==> (#[trigger] out@[j])@ == subst_vars(ts@[j]@, view_var_pairs(pairs@)),
        decreases ts.len() - i,
    {
        out.push(substitute_vars(&ts[i], pairs));
        i = i + 1;
    }
    assert(view_types(out@) =~= subst_vars_in(view_types(ts@), view_var_pairs(pairs@)));
    out
}

fn substitute_vars_in_captures(cs: &Vec<FunctionCapture>, pairs: &Vec<(u32, Type)>) -> (r: Vec<
    FunctionCapture,
>)
    ensures
        view_captures(r@) == subst_vars_in_captures(view_captures(cs@), view_var_pairs(pairs@)),
    decreases cs,
{
    let mut out: Vec<FunctionCapture> = Vec::new();
    let mut i: usize = 0;
    while i < cs.len()
        invariant
            i <= cs@.len(),
            out@.len() == i,
            forall|j: int|
                0 <= j < i ==> (#[trigger] out@[j]).kind == cs@[j].kind && out@[j].ty@ == subst_vars(
                    cs@[j].ty@,
                    view_var_pairs(pairs@),
                ),
        decreases cs.len() - i,
    {
        out.push(FunctionCapture { kind: cs[i].kind, ty: substitute_vars(&cs[i].ty, pairs) });
        i = i + 1;
    }
    assert(view_captures(out@) =~= subst_vars_in_captures(view_captures(cs@), view_var_pairs(pairs@)));
    out
}

} // verus!
