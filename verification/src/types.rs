use vstd::prelude::*;
use crate::ids::{AssociatedTypeKey, DefId, GenericParamId};

verus! {

/// Whether calling a function value needs an unsafe context.
#[derive(Clone, Copy, Debug, PartialEq, Eq, Structural)]
pub enum FunctionSafety {
    Safe,
    Unsafe,
}

/// The callable protocol a function value implements, ordered from the most
/// permissive receiver (`Fn`) to the most demanding one (`FnOnce`).
#[derive(Clone, Copy, Debug, PartialEq, Eq, Structural)]
pub enum CallableKind {
    Fn,
    FnMut,
    FnOnce,
}

/// How a closure holds one of its captured values.
#[derive(Clone, Copy, Debug, PartialEq, Eq, Structural)]
pub enum CaptureKind {
    SharedBorrow,
    MutableBorrow,
    Move,
}

/// Which kind of nominal definition a type constructor names.
#[derive(Clone, Copy, Debug, PartialEq, Eq, Structural)]
pub enum NominalTypeKind {
    Struct,
    Enum,
    Alias,
}

/// The kind of a type-level parameter: an ordinary type, or a constructor
/// awaiting `arity` type arguments.
#[derive(Clone, Copy, Debug, PartialEq, Eq, Structural)]
pub enum Kind {
    Type,
    Constructor { arity: u32 },
}

/// One value captured by a closure type.
#[derive(Debug, PartialEq)]
pub struct FunctionCapture {
    pub kind: CaptureKind,
    pub ty: Type,
}

/// The types of the language.
#[derive(Debug, PartialEq)]
pub enum Type {
    Unit,
    Bool,
    I32,
    I64,
    U8,
    U64,
    Char,
    Str,
    /// An inference variable.
    TypeVar(u32),
    /// A generic parameter of some definition.
    Generic(GenericParamId),
    /// A variable bound by an enclosing type lambda (`depth` counts lambdas outward).
    BoundVar { depth: u32, index: u32, kind: Kind },
    Struct { id: DefId, args: Vec<Type> },
    Enum { id: DefId, args: Vec<Type> },
    Tuple(Vec<Type>),
    Function {
        params: Vec<Type>,
        ret: Box<Type>,
        safety: FunctionSafety,
        callable_kind: CallableKind,
        captures: Vec<FunctionCapture>,
    },
    Slice(Box<Type>),
    Array(Box<Type>, u64),
    Pointer(Box<Type>),
    Reference { mutable: bool, inner: Box<Type> },
    /// An unapplied nominal type constructor.
    Constructor { id: DefId, flavor: NominalTypeKind },
    /// A type constructor applied to arguments.
    Apply { constructor: Box<Type>, args: Vec<Type> },
    /// A type-level function over bound variables.
    Lambda { params: Vec<Kind>, body: Box<Type> },
    /// An associated type of a trait implementation.
    Projection {
        ty: Box<Type>,
        trait_id: DefId,
        assoc_type: AssociatedTypeKey,
        trait_args: Vec<Type>,
    },
}

/// The mathematical value of a [`FunctionCapture`].
pub struct SpecCapture {
    pub kind: CaptureKind,
    pub ty: SpecType,
}

/// The mathematical value of a [`Type`]: the same tree, with sequences in
/// place of vectors.
pub enum SpecType {
    Unit,
    Bool,
    I32,
    I64,
    U8,
    U64,
    Char,
    Str,
    TypeVar(u32),
    Generic(GenericParamId),
    BoundVar { depth: u32, index: u32, kind: Kind },
    Struct { id: DefId, args: Seq<SpecType> },
    Enum { id: DefId, args: Seq<SpecType> },
    Tuple(Seq<SpecType>),
    Function {
        params: Seq<SpecType>,
        ret: Box<SpecType>,
        safety: FunctionSafety,
        callable_kind: CallableKind,
        captures: Seq<SpecCapture>,
    },
    Slice(Box<SpecType>),
    Array(Box<SpecType>, u64),
    Pointer(Box<SpecType>),
    Reference { mutable: bool, inner: Box<SpecType> },
    Constructor { id: DefId, flavor: NominalTypeKind },
    Apply { constructor: Box<SpecType>, args: Seq<SpecType> },
    Lambda { params: Seq<Kind>, body: Box<SpecType> },
    Projection {
        ty: Box<SpecType>,
        trait_id: DefId,
        assoc_type: AssociatedTypeKey,
        trait_args: Seq<SpecType>,
    },
}

pub open spec fn view_types(ts: Seq<Type>) -> Seq<SpecType>
    decreases ts,
{
    Seq::new(ts.len(), |i: int| if 0 <= i < ts.len() { view_type(ts[i]) } else { SpecType::Unit })
}

pub open spec fn view_captures(cs: Seq<FunctionCapture>) -> Seq<SpecCapture>
    decreases cs,
{
    Seq::new(
        cs.len(),
        |i: int|
            if 0 <= i < cs.len() {
                SpecCapture { kind: cs[i].kind, ty: view_type(cs[i].ty) }
            } else {
                SpecCapture { kind: CaptureKind::Move, ty: SpecType::Unit }
            },
    )
}

pub open spec fn view_type(t: Type) -> SpecType
    decreases t,
{
    match t {
        Type::Unit => SpecType::Unit,
        Type::Bool => SpecType::Bool,
        Type::I32 => SpecType::I32,
        Type::I64 => SpecType::I64,
        Type::U8 => SpecType::U8,
        Type::U64 => SpecType::U64,
        Type::Char => SpecType::Char,
        Type::Str => SpecType::Str,
        Type::TypeVar(v) => SpecType::TypeVar(v),
        Type::Generic(p) => SpecType::Generic(p),
        Type::BoundVar { depth, index, kind } => SpecType::BoundVar { depth, index, kind },
        Type::Struct { id, args } => SpecType::Struct { id, args: view_types(args@) },
        Type::Enum { id, args } => SpecType::Enum { id, args: view_types(args@) },
        Type::Tuple(items) => SpecType::Tuple(view_types(items@)),
        Type::Function { params, ret, safety, callable_kind, captures } => SpecType::Function {
            params: view_types(params@),
            ret: Box::new(view_type(*ret)),
            safety,
            callable_kind,
            captures: view_captures(captures@),
        },
        Type::Slice(inner) => SpecType::Slice(Box::new(view_type(*inner))),
        Type::Array(inner, len) => SpecType::Array(Box::new(view_type(*inner)), len),
        Type::Pointer(inner) => SpecType::Pointer(Box::new(view_type(*inner))),
        Type::Reference { mutable, inner } => SpecType::Reference {
            mutable,
            inner: Box::new(view_type(*inner)),
        },
        Type::Constructor { id, flavor } => SpecType::Constructor { id, flavor },
        Type::Apply { constructor, args } => SpecType::Apply {
            constructor: Box::new(view_type(*constructor)),
            args: view_types(args@),
        },
        Type::Lambda { params, body } => SpecType::Lambda {
            params: params@,
            body: Box::new(view_type(*body)),
        },
        Type::Projection { ty, trait_id, assoc_type, trait_args } => SpecType::Projection {
            ty: Box::new(view_type(*ty)),
            trait_id,
            assoc_type,
            trait_args: view_types(trait_args@),
        },
    }
}

impl View for Type {
    type V = SpecType;

    open spec fn view(&self) -> SpecType {
        view_type(*self)
    }
}

impl View for FunctionCapture {
    type V = SpecCapture;

    open spec fn view(&self) -> SpecCapture {
        SpecCapture { kind: self.kind, ty: view_type(self.ty) }
    }
}

/// The rank of a callable protocol in the order `Fn < FnMut < FnOnce`.
pub open spec fn callable_rank(kind: CallableKind) -> int {
    match kind {
        CallableKind::Fn => 0,
        CallableKind::FnMut => 1,
        CallableKind::FnOnce => 2,
    }
}

impl Clone for Type {
    fn clone(&self) -> (r: Self)
        ensures
            r@ == self@,
    {
        clone_type(self)
    }
}

impl Clone for FunctionCapture {
    fn clone(&self) -> (r: Self)
        ensures
            r@ == self@,
    {
        FunctionCapture { kind: self.kind, ty: clone_type(&self.ty) }
    }
}

impl Type {
    /// A safe, capture-free `Fn` function type.
    pub fn function(params: Vec<Type>, ret: Type) -> (t: Type)
        ensures
            t@ == (SpecType::Function {
                params: view_types(params@),
                ret: Box::new(ret@),
                safety: FunctionSafety::Safe,
                callable_kind: CallableKind::Fn,
                captures: Seq::empty(),
            }),
    {
        let t = Type::Function {
            params,
            ret: Box::new(ret),
            safety: FunctionSafety::Safe,
            callable_kind: CallableKind::Fn,
            captures: Vec::new(),
        };
        assert(view_captures(Seq::<FunctionCapture>::empty()) =~= Seq::<SpecCapture>::empty());
        t
    }

    /// An unsafe, capture-free `Fn` function type.
    pub fn unsafe_function(params: Vec<Type>, ret: Type) -> (t: Type)
        ensures
            t@ == (SpecType::Function {
                params: view_types(params@),
                ret: Box::new(ret@),
                safety: FunctionSafety::Unsafe,
                callable_kind: CallableKind::Fn,
                captures: Seq::empty(),
            }),
    {
        let t = Type::Function {
            params,
            ret: Box::new(ret),
            safety: FunctionSafety::Unsafe,
            callable_kind: CallableKind::Fn,
            captures: Vec::new(),
        };
        assert(view_captures(Seq::<FunctionCapture>::empty()) =~= Seq::<SpecCapture>::empty());
        t
    }

    /// A function type with explicit safety, callable kind and captures.
    pub fn function_with_metadata(
        params: Vec<Type>,
        ret: Type,
        safety: FunctionSafety,
        callable_kind: CallableKind,
        captures: Vec<FunctionCapture>,
    ) -> (t: Type)
        ensures
            t@ == (SpecType::Function {
                params: view_types(params@),
                ret: Box::new(ret@),
                safety,
                callable_kind,
                captures: view_captures(captures@),
            }),
    {
        Type::Function { params, ret: Box::new(ret), safety, callable_kind, captures }
    }
}

impl CallableKind {
    /// `self <= other` in the order `Fn < FnMut < FnOnce`.
    pub fn at_most(&self, other: &CallableKind) -> (r: bool)
        ensures
            r == (callable_rank(*self) <= callable_rank(*other)),
    {
        match (self, other) {
            (CallableKind::Fn, _) => true,
            (CallableKind::FnMut, CallableKind::Fn) => false,
            (CallableKind::FnMut, _) => true,
            (CallableKind::FnOnce, CallableKind::FnOnce) => true,
            (CallableKind::FnOnce, _) => false,
        }
    }
}

impl FunctionCapture {
    pub fn new(kind: CaptureKind, ty: Type) -> (c: FunctionCapture)
        ensures
            c.kind == kind,
            c@.ty == ty@,
    {
        FunctionCapture { kind, ty }
    }
}

pub fn clone_type(t: &Type) -> (r: Type)
    ensures
        r@ == t@,
    decreases t,
{
    match t {
        Type::Unit => Type::Unit,
        Type::Bool => Type::Bool,
        Type::I32 => Type::I32,
        Type::I64 => Type::I64,
        Type::U8 => Type::U8,
        Type::U64 => Type::U64,
        Type::Char => Type::Char,
        Type::Str => Type::Str,
        Type::TypeVar(v) => Type::TypeVar(*v),
        Type::Generic(p) => Type::Generic(*p),
        Type::BoundVar { depth, index, kind } => Type::BoundVar {
            depth: *depth,
            index: *index,
            kind: *kind,
        },
        Type::Struct { id, args } => Type::Struct { id: *id, args: clone_types(args) },
        Type::Enum { id, args } => Type::Enum { id: *id, args: clone_types(args) },
        Type::Tuple(items) => Type::Tuple(clone_types(items)),
        Type::Function { params, ret, safety, callable_kind, captures } => Type::Function {
            params: clone_types(params),
            ret: Box::new(clone_type(ret)),
            safety: *safety,
            callable_kind: *callable_kind,
            captures: clone_captures(captures),
        },
        Type::Slice(inner) => Type::Slice(Box::new(clone_type(inner))),
        Type::Array(inner, len) => Type::Array(Box::new(clone_type(inner)), *len),
        Type::Pointer(inner) => Type::Pointer(Box::new(clone_type(inner))),
        Type::Reference { mutable, inner } => Type::Reference {
            mutable: *mutable,
            inner: Box::new(clone_type(inner)),
        },
        Type::Constructor { id, flavor } => Type::Constructor { id: *id, flavor: *flavor },
        Type::Apply { constructor, args } => Type::Apply {
            constructor: Box::new(clone_type(constructor)),
            args: clone_types(args),
        },
        Type::Lambda { params, body } => Type::Lambda {
            params: clone_kinds(params),
            body: Box::new(clone_type(body)),
        },
        Type::Projection { ty, trait_id, assoc_type, trait_args } => Type::Projection {
            ty: Box::new(clone_type(ty)),
            trait_id: *trait_id,
            assoc_type: *assoc_type,
            trait_args: clone_types(trait_args),
        },
    }
}

pub fn clone_types(ts: &Vec<Type>) -> (r: Vec<Type>)
    ensures
        view_types(r@) == view_types(ts@),
    decreases ts,
{
    let mut out: Vec<Type> = Vec::new();
    let mut i: usize = 0;
    while i < ts.len()
        invariant
            i <= ts.len(),
            out@.len() == i,
            forall|j: int| 0 <= j < i ==> view_type(#[trigger] out@[j]) == view_type(ts@[j]),
        decreases ts.len() - i,
    {
        let c = clone_type(&ts[i]);
        out.push(c);
        i = i + 1;
    }
    assert(view_types(out@) =~= view_types(ts@));
    out
}

fn clone_captures(cs: &Vec<FunctionCapture>) -> (r: Vec<FunctionCapture>)
    ensures
        view_captures(r@) == view_captures(cs@),
    decreases cs,
{
    let mut out: Vec<FunctionCapture> = Vec::new();
    let mut i: usize = 0;
    while i < cs.len()
        invariant
            i <= cs.len(),
            out@.len() == i,
            forall|j: int|
                0 <= j < i ==> (#[trigger] out@[j]).kind == cs@[j].kind && view_type(out@[j].ty)
                    == view_type(cs@[j].ty),
        decreases cs.len() - i,
    {
        let ty = clone_type(&cs[i].ty);
        out.push(FunctionCapture { kind: cs[i].kind, ty });
        i = i + 1;
    }
    assert(view_captures(out@) =~= view_captures(cs@));
    out
}

pub fn clone_kinds(ks: &Vec<Kind>) -> (r: Vec<Kind>)
    ensures
        r@ == ks@,
{
    let mut out: Vec<Kind> = Vec::new();
    let mut i: usize = 0;
    while i < ks.len()
        invariant
            i <= ks.len(),
            out@ == ks@.take(i as int),
        decreases ks.len() - i,
    {
        out.push(ks[i]);
        i = i + 1;
        assert(out@ =~= ks@.take(i as int));
    }
    assert(ks@.take(ks.len() as int) =~= ks@);
    out
}

pub fn kinds_eq(a: &Vec<Kind>, b: &Vec<Kind>) -> (r: bool)
    ensures
        r == (a@ == b@),
{
    if a.len() != b.len() {
        return false;
    }
    let mut i: usize = 0;
    while i < a.len()
        invariant
            i <= a.len(),
            a@.len() == b@.len(),
            forall|j: int| 0 <= j < i ==> a@[j] == b@[j],
        decreases a.len() - i,
    {
        if a[i] != b[i] {
            return false;
        }
        i = i + 1;
    }
    assert(a@ =~= b@);
    true
}

/// Structural equality of two types.
pub fn type_eq(a: &Type, b: &Type) -> (r: bool)
    ensures
        r == (a@ == b@),
    decreases a,
{
    match (a, b) {
        (Type::Unit, Type::Unit) => true,
        (Type::Bool, Type::Bool) => true,
        (Type::I32, Type::I32) => true,
        (Type::I64, Type::I64) => true,
        (Type::U8, Type::U8) => true,
        (Type::U64, Type::U64) => true,
        (Type::Char, Type::Char) => true,
        (Type::Str, Type::Str) => true,
        (Type::TypeVar(x), Type::TypeVar(y)) => *x == *y,
        (Type::Generic(x), Type::Generic(y)) => *x == *y,
        (
            Type::BoundVar { depth: d1, index: i1, kind: k1 },
            Type::BoundVar { depth: d2, index: i2, kind: k2 },
        ) => *d1 == *d2 && *i1 == *i2 && *k1 == *k2,
        (Type::Struct { id: i1, args: a1 }, Type::Struct { id: i2, args: a2 }) => {
            *i1 == *i2 && types_eq(a1, a2)
        },
        (Type::Enum { id: i1, args: a1 }, Type::Enum { id: i2, args: a2 }) => {
            *i1 == *i2 && types_eq(a1, a2)
        },
        (Type::Tuple(a1), Type::Tuple(a2)) => types_eq(a1, a2),
        (
            Type::Function {
                params: p1,
                ret: r1,
                safety: s1,
                callable_kind: k1,
                captures: c1,
            },
            Type::Function {
                params: p2,
                ret: r2,
                safety: s2,
                callable_kind: k2,
                captures: c2,
            },
        ) => {
            *s1 == *s2 && *k1 == *k2 && types_eq(p1, p2) && type_eq(r1, r2) && captures_eq(c1, c2)
        },
        (Type::Slice(x), Type::Slice(y)) => type_eq(x, y),
        (Type::Array(x, n), Type::Array(y, m)) => *n == *m && type_eq(x, y),
        (Type::Pointer(x), Type::Pointer(y)) => type_eq(x, y),
        (Type::Reference { mutable: m1, inner: x }, Type::Reference { mutable: m2, inner: y }) => {
            *m1 == *m2 && type_eq(x, y)
        },
        (Type::Constructor { id: i1, flavor: f1 }, Type::Constructor { id: i2, flavor: f2 }) => {
            *i1 == *i2 && *f1 == *f2
        },
        (Type::Apply { constructor: c1, args: a1 }, Type::Apply { constructor: c2, args: a2 }) => {
            type_eq(c1, c2) && types_eq(a1, a2)
        },
        (Type::Lambda { params: p1, body: b1 }, Type::Lambda { params: p2, body: b2 }) => {
            kinds_eq(p1, p2) && type_eq(b1, b2)
        },
        (
            Type::Projection { ty: t1, trait_id: tr1, assoc_type: as1, trait_args: a1 },
            Type::Projection { ty: t2, trait_id: tr2, assoc_type: as2, trait_args: a2 },
        ) => *tr1 == *tr2 && *as1 == *as2 && type_eq(t1, t2) && types_eq(a1, a2),
        _ => false,
    }
}

/// Element-wise equality of two type lists.
pub fn types_eq(a: &Vec<Type>, b: &Vec<Type>) -> (r: bool)
    ensures
        r == (view_types(a@) == view_types(b@)),
    decreases a,
{
    if a.len() != b.len() {
        assert(view_types(a@).len() != view_types(b@).len());
        return false;
    }
    let mut i: usize = 0;
    while i < a.len()
        invariant
            i <= a.len(),
            a@.len() == b@.len(),
            forall|j: int| 0 <= j < i ==> view_type(#[trigger] a@[j]) == view_type(b@[j]),
        decreases a.len() - i,
    {
        if !type_eq(&a[i], &b[i]) {
            assert(view_types(a@)[i as int] != view_types(b@)[i as int]);
            return false;
        }
        i = i + 1;
    }
    assert(view_types(a@) =~= view_types(b@));
    true
}

pub fn captures_eq(a: &Vec<FunctionCapture>, b: &Vec<FunctionCapture>) -> (r: bool)
    ensures
        r == (view_captures(a@) == view_captures(b@)),
    decreases a,
{
    if a.len() != b.len() {
        assert(view_captures(a@).len() != view_captures(b@).len());
        return false;
    }
    let mut i: usize = 0;
    while i < a.len()
        invariant
            i <= a.len(),
            a@.len() == b@.len(),
            forall|j: int|
                0 <= j < i ==> (#[trigger] a@[j]).kind == b@[j].kind && view_type(a@[j].ty)
                    == view_type(b@[j].ty),
        decreases a.len() - i,
    {
        if a[i].kind != b[i].kind || !type_eq(&a[i].ty, &b[i].ty) {
            assert(view_captures(a@)[i as int] != view_captures(b@)[i as int]);
            return false;
        }
        i = i + 1;
    }
    assert(view_captures(a@) =~= view_captures(b@));
    true
}

} // verus!
