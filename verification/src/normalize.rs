use vstd::prelude::*;
use crate::types::{
    clone_kinds, clone_type, clone_types, view_captures, view_type, view_types, CaptureKind,
    FunctionCapture, NominalTypeKind, SpecCapture, SpecType, Type,
};

verus! {

/// The binder depth one lambda further in; `None` once it no longer fits a `u32`,
/// where no bound variable can refer to it.
pub open spec fn next_depth(depth: Option<u32>) -> Option<u32> {
    match depth {
        Some(d) => if d < u32::MAX {
            Some((d + 1) as u32)
        } else {
            None
        },
        None => None,
    }
}

/// Replaces the variables bound by the lambda at `depth` (counted from `t`
/// outward) by `args`; a variable whose index has no argument is kept.
pub open spec fn instantiate(t: SpecType, args: Seq<SpecType>, depth: Option<u32>) -> SpecType
    decreases t,
{
    match t {
        SpecType::BoundVar { depth: d, index, kind } => if depth == Some(d) && index < args.len() {
            args[index as int]
        } else {
            t
        },
        SpecType::Struct { id, args: items } => SpecType::Struct {
            id,
            args: instantiate_all(items, args, depth),
        },
        SpecType::Enum { id, args: items } => SpecType::Enum {
            id,
            args: instantiate_all(items, args, depth),
        },
        SpecType::Tuple(items) => SpecType::Tuple(instantiate_all(items, args, depth)),
        SpecType::Function { params, ret, safety, callable_kind, captures } => SpecType::Function {
            params: instantiate_all(params, args, depth),
            ret: Box::new(instantiate(*ret, args, depth)),
            safety,
            callable_kind,
            captures: instantiate_captures(captures, args, depth),
        },
        SpecType::Slice(inner) => SpecType::Slice(Box::new(instantiate(*inner, args, depth))),
        SpecType::Array(inner, len) => SpecType::Array(
            Box::new(instantiate(*inner, args, depth)),
            len,
        ),
        SpecType::Pointer(inner) => SpecType::Pointer(Box::new(instantiate(*inner, args, depth))),
        SpecType::Reference { mutable, inner } => SpecType::Reference {
            mutable,
            inner: Box::new(instantiate(*inner, args, depth)),
        },
        SpecType::Apply { constructor, args: items } => SpecType::Apply {
            constructor: Box::new(instantiate(*constructor, args, depth)),
            args: instantiate_all(items, args, depth),
        },
        SpecType::Lambda { params, body } => SpecType::Lambda {
            params,
            body: Box::new(instantiate(*body, args, next_depth(depth))),
        },
        SpecType::Projection { ty, trait_id, assoc_type, trait_args } => SpecType::Projection {
            ty: Box::new(instantiate(*ty, args, depth)),
            trait_id,
            assoc_type,
            trait_args: instantiate_all(trait_args, args, depth),
        },
        _ => t,
    }
}

pub open spec fn instantiate_all(ts: Seq<SpecType>, args: Seq<SpecType>, depth: Option<u32>) -> Seq<
    SpecType,
>
    decreases ts,
{
    Seq::new(
        ts.len(),
        |i: int| if 0 <= i < ts.len() { instantiate(ts[i], args, depth) } else { SpecType::Unit },
    )
}

pub open spec fn instantiate_captures(
    cs: Seq<SpecCapture>,
    args: Seq<SpecType>,
    depth: Option<u32>,
) -> Seq<SpecCapture>
    decreases cs,
{
    Seq::new(
        cs.len(),
        |i: int|
            if 0 <= i < cs.len() {
                SpecCapture { kind: cs[i].kind, ty: instantiate(cs[i].ty, args, depth) }
            } else {
                SpecCapture { kind: CaptureKind::Move, ty: SpecType::Unit }
            },
    )
}

/// Beta-reduction of a type lambda applied to as many arguments as it binds.
pub open spec fn spec_apply_type_lambda(lambda: SpecType, args: Seq<SpecType>) -> Option<SpecType> {
    match lambda {
        SpecType::Lambda { params, body } => if params.len() == args.len() {
            Some(instantiate(*body, args, Some(0)))
        } else {
            None
        },
        _ => None,
    }
}

/// The type that applying `constructor` to `args` denotes, when the
/// constructor is a nominal struct or enum, or a type lambda.
pub open spec fn spec_apply_constructor_pattern(constructor: SpecType, args: Seq<SpecType>) -> Option<
    SpecType,
> {
    match constructor {
        SpecType::Constructor { id, flavor } => match flavor {
            NominalTypeKind::Struct => Some(SpecType::Struct { id, args }),
            NominalTypeKind::Enum => Some(SpecType::Enum { id, args }),
            NominalTypeKind::Alias => None,
        },
        SpecType::Lambda { .. } => spec_apply_type_lambda(constructor, args),
        _ => None,
    }
}

fn deeper(depth: Option<u32>) -> (r: Option<u32>)
    ensures
        r == next_depth(depth),
{
    match depth {
        Some(d) => if d < u32::MAX {
            Some(d + 1)
        } else {
            None
        },
        None => None,
    }
}

fn instantiate_type(t: &Type, args: &Vec<Type>, depth: Option<u32>) -> (r: Type)
    ensures
        r@ == instantiate(t@, view_types(args@), depth),
    decreases t,
{
    match t {
        Type::BoundVar { depth: d, index, .. } => {
            if depth == Some(*d) && (*index as usize) < args.len() {
                clone_type(&args[*index as usize])
            } else {
                clone_type(t)
            }
        },
        Type::Struct { id, args: items } => Type::Struct {
            id: *id,
            args: instantiate_types(items, args, depth),
        },
        Type::Enum { id, args: items } => Type::Enum {
            id: *id,
            args: instantiate_types(items, args, depth),
        },
        Type::Tuple(items) => Type::Tuple(instantiate_types(items, args, depth)),
        Type::Function { params, ret, safety, callable_kind, captures } => Type::Function {
            params: instantiate_types(params, args, depth),
            ret: Box::new(instantiate_type(ret, args, depth)),
            safety: *safety,
            callable_kind: *callable_kind,
            captures: instantiate_capture_types(captures, args, depth),
        },
        Type::Slice(inner) => Type::Slice(Box::new(instantiate_type(inner, args, depth))),
        Type::Array(inner, len) => Type::Array(Box::new(instantiate_type(inner, args, depth)), *len),
        Type::Pointer(inner) => Type::Pointer(Box::new(instantiate_type(inner, args, depth))),
        Type::Reference { mutable, inner } => Type::Reference {
            mutable: *mutable,
            inner: Box::new(instantiate_type(inner, args, depth)),
        },
        Type::Apply { constructor, args: items } => Type::Apply {
            constructor: Box::new(instantiate_type(constructor, args, depth)),
            args: instantiate_types(items, args, depth),
        },
        Type::Lambda { params, body } => Type::Lambda {
            params: clone_kinds(params),
            body: Box::new(instantiate_type(body, args, deeper(depth))),
        },
        Type::Projection { ty, trait_id, assoc_type, trait_args } => Type::Projection {
            ty: Box::new(instantiate_type(ty, args, depth)),
            trait_id: *trait_id,
            assoc_type: *assoc_type,
            trait_args: instantiate_types(trait_args, args, depth),
        },
        _ => clone_type(t),
    }
}

fn instantiate_types(ts: &Vec<Type>, args: &Vec<Type>, depth: Option<u32>) -> (r: Vec<Type>)
    ensures
        view_types(r@) == instantiate_all(view_types(ts@), view_types(args@), depth),
    decreases ts,
{
    let mut out: Vec<Type> = Vec::new();
    let mut i: usize = 0;
    while i < ts.len()
        invariant
            i <= ts.len(),
            out@.len() == i,
            forall|j: int|
                0 <= j < i ==> view_type(#[trigger] out@[j]) == instantiate(
                    view_type(ts@[j]),
                    view_types(args@),
                    depth,
                ),
        decreases ts.len() - i,
    {
        let t = instantiate_type(&ts[i], args, depth);
        out.push(t);
        i = i + 1;
    }
    assert(view_types(out@) =~= instantiate_all(view_types(ts@), view_types(args@), depth));
    out
}

fn instantiate_capture_types(cs: &Vec<FunctionCapture>, args: &Vec<Type>, depth: Option<u32>) -> (r:
    Vec<FunctionCapture>)
    ensures
        view_captures(r@) == instantiate_captures(view_captures(cs@), view_types(args@), depth),
    decreases cs,
{
    let mut out: Vec<FunctionCapture> = Vec::new();
    let mut i: usize = 0;
    while i < cs.len()
        invariant
            i <= cs.len(),
            out@.len() == i,
            forall|j: int|
                0 <= j < i ==> (#[trigger] out@[j]).kind == cs@[j].kind && view_type(out@[j].ty)
                    == instantiate(view_type(cs@[j].ty), view_types(args@), depth),
        decreases cs.len() - i,
    {
        let ty = instantiate_type(&cs[i].ty, args, depth);
        out.push(FunctionCapture { kind: cs[i].kind, ty });
        i = i + 1;
    }
    assert(view_captures(out@) =~= instantiate_captures(view_captures(cs@), view_types(args@), depth));
    out
}

/// Applies a type lambda to its arguments.
pub fn apply_type_lambda(lambda: &Type, args: &Vec<Type>) -> (r: Option<Type>)
    ensures
        r matches Some(t) ==> spec_apply_type_lambda(lambda@, view_types(args@)) == Some(t@),
        r is None ==> spec_apply_type_lambda(lambda@, view_types(args@)) is None,
{
    match lambda {
        Type::Lambda { params, body } => {
            if params.len() == args.len() {
                Some(instantiate_type(body, args, Some(0)))
            } else {
                None
            }
        },
        _ => None,
    }
}

/// The type that applying `constructor` to `args` denotes.
pub fn apply_constructor_pattern(constructor: &Type, args: &Vec<Type>) -> (r: Option<Type>)
    ensures
        r matches Some(t) ==> spec_apply_constructor_pattern(constructor@, view_types(args@))
            == Some(t@),
        r is None ==> spec_apply_constructor_pattern(constructor@, view_types(args@)) is None,
{
    match constructor {
        Type::Constructor { id, flavor } => match flavor {
            NominalTypeKind::Struct => Some(Type::Struct { id: *id, args: clone_types(args) }),
            NominalTypeKind::Enum => Some(Type::Enum { id: *id, args: clone_types(args) }),
            NominalTypeKind::Alias => None,
        },
        Type::Lambda { .. } => apply_type_lambda(constructor, args),
        _ => None,
    }
}

} // verus!
