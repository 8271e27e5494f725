use vstd::prelude::*;
use crate::hir::{clone_call_target, view_call_target, HirMethodCallTarget, SpecCallTarget};
use crate::types::{clone_type, view_type, SpecType, Type};

verus! {

/// A source range.
#[derive(Clone, Copy, Debug, PartialEq, Eq, Structural)]
pub struct Span {
    pub start: u32,
    pub end: u32,
}

/// A local variable of a function body.
#[derive(Clone, Copy, Debug, PartialEq, Eq, Structural)]
pub struct HirLocalId {
    pub index: u32,
}

/// What a resolved variable refers to.
#[derive(Clone, Copy, Debug, PartialEq, Eq, Structural)]
pub enum HirVarTarget {
    Local(HirLocalId),
}

/// A variable reference after name resolution.
#[derive(Debug)]
pub struct HirVarRef {
    pub name: String,
    pub target: HirVarTarget,
}

/// A parameter of a function or lambda.
#[derive(Debug)]
pub struct HirParam {
    pub name: String,
    pub local_id: HirLocalId,
    pub ty: Type,
    pub mutable: bool,
    pub is_ref: bool,
}

/// A statement of a typed block.
#[derive(Debug)]
pub enum HirStmt {
    Expr(HirExpr),
}

/// A typed block: its statements and the type of its value.
#[derive(Debug)]
pub struct HirBlock {
    pub stmts: Vec<HirStmt>,
    pub ty: Type,
}

/// The forms of typed expressions that callable lowering reads and builds.
#[derive(Debug)]
pub enum HirExprKind {
    Unit,
    /// A variable not resolved yet.
    Var(String),
    ResolvedVar(HirVarRef),
    FieldAccess(Box<HirExpr>, String),
    TupleIndex(Box<HirExpr>, u32),
    Deref(Box<HirExpr>),
    /// `&value` or `&mut value`.
    Ref(bool, Box<HirExpr>),
    TupleLiteral(Vec<HirExpr>),
    /// A call of a function value.
    Call(Box<HirExpr>, Vec<HirExpr>),
    Lambda { params: Vec<HirParam>, body: HirBlock },
    /// A call of a method: the receiver, the method's name, the arguments,
    /// whether the method takes `self` by value, and the resolved target.
    MethodCall(Box<HirExpr>, String, Vec<HirExpr>, bool, Option<HirMethodCallTarget>),
}

/// A typed expression.
#[derive(Debug)]
pub struct HirExpr {
    pub ty: Type,
    pub kind: HirExprKind,
    pub span: Span,
}

// ---------------------------------------------------------------------------
// Mathematical values.
// ---------------------------------------------------------------------------

pub struct SpecHirParam {
    pub name: Seq<char>,
    pub local_id: HirLocalId,
    pub ty: SpecType,
    pub mutable: bool,
    pub is_ref: bool,
}

pub enum SpecHirKind {
    Unit,
    Var(Seq<char>),
    ResolvedVar { name: Seq<char>, target: HirVarTarget },
    FieldAccess(Box<SpecHirExpr>, Seq<char>),
    TupleIndex(Box<SpecHirExpr>, u32),
    Deref(Box<SpecHirExpr>),
    Ref(bool, Box<SpecHirExpr>),
    TupleLiteral(Seq<SpecHirExpr>),
    Call(Box<SpecHirExpr>, Seq<SpecHirExpr>),
    Lambda { params: Seq<SpecHirParam>, body: Seq<SpecHirExpr>, body_ty: SpecType },
    MethodCall {
        receiver: Box<SpecHirExpr>,
        name: Seq<char>,
        args: Seq<SpecHirExpr>,
        self_receiver: bool,
        call_target: Option<SpecCallTarget>,
    },
}

pub struct SpecHirExpr {
    pub ty: SpecType,
    pub kind: SpecHirKind,
    pub span: Span,
}

pub open spec fn view_param(p: HirParam) -> SpecHirParam {
    SpecHirParam {
        name: p.name@,
        local_id: p.local_id,
        ty: view_type(p.ty),
        mutable: p.mutable,
        is_ref: p.is_ref,
    }
}

pub open spec fn view_params(ps: Seq<HirParam>) -> Seq<SpecHirParam> {
    ps.map_values(|p: HirParam| view_param(p))
}

pub open spec fn view_hir(e: HirExpr) -> SpecHirExpr
    decreases e,
{
    SpecHirExpr {
        ty: view_type(e.ty),
        kind: match e.kind {
            HirExprKind::Unit => SpecHirKind::Unit,
            HirExprKind::Var(name) => SpecHirKind::Var(name@),
            HirExprKind::ResolvedVar(v) => SpecHirKind::ResolvedVar {
                name: v.name@,
                target: v.target,
            },
            HirExprKind::FieldAccess(base, field) => SpecHirKind::FieldAccess(
                Box::new(view_hir(*base)),
                field@,
            ),
            HirExprKind::TupleIndex(base, index) => SpecHirKind::TupleIndex(
                Box::new(view_hir(*base)),
                index,
            ),
            HirExprKind::Deref(inner) => SpecHirKind::Deref(Box::new(view_hir(*inner))),
            HirExprKind::Ref(mutable, inner) => SpecHirKind::Ref(mutable, Box::new(view_hir(*inner))),
            HirExprKind::TupleLiteral(items) => SpecHirKind::TupleLiteral(view_hirs(items@)),
            HirExprKind::Call(callee, args) => SpecHirKind::Call(
                Box::new(view_hir(*callee)),
                view_hirs(args@),
            ),
            HirExprKind::Lambda { params, body } => SpecHirKind::Lambda {
                params: view_params(params@),
                body: view_stmts(body.stmts@),
                body_ty: view_type(body.ty),
            },
            HirExprKind::MethodCall(receiver, name, args, self_receiver, target) =>
                SpecHirKind::MethodCall {
                receiver: Box::new(view_hir(*receiver)),
                name: name@,
                args: view_hirs(args@),
                self_receiver,
                call_target: match target {
                    Some(t) => Some(view_call_target(t)),
                    None => None,
                },
            },
        },
        span: e.span,
    }
}

pub open spec fn view_hirs(es: Seq<HirExpr>) -> Seq<SpecHirExpr>
    decreases es,
{
    Seq::new(
        es.len(),
        |i: int|
            if 0 <= i < es.len() {
                view_hir(es[i])
            } else {
                SpecHirExpr {
                    ty: SpecType::Unit,
                    kind: SpecHirKind::Unit,
                    span: Span { start: 0, end: 0 },
                }
            },
    )
}

/// The statements of a block, each an expression statement.
pub open spec fn view_stmts(ss: Seq<HirStmt>) -> Seq<SpecHirExpr>
    decreases ss,
{
    Seq::new(
        ss.len(),
        |i: int|
            if 0 <= i < ss.len() {
                match ss[i] {
                    HirStmt::Expr(e) => view_hir(e),
                }
            } else {
                SpecHirExpr {
                    ty: SpecType::Unit,
                    kind: SpecHirKind::Unit,
                    span: Span { start: 0, end: 0 },
                }
            },
    )
}

impl View for HirExpr {
    type V = SpecHirExpr;

    open spec fn view(&self) -> SpecHirExpr {
        view_hir(*self)
    }
}

// ---------------------------------------------------------------------------
// Copies that keep the value.
// ---------------------------------------------------------------------------

pub fn clone_param(p: &HirParam) -> (r: HirParam)
    ensures
        view_param(r) == view_param(*p),
{
    HirParam {
        name: p.name.clone(),
        local_id: p.local_id,
        ty: clone_type(&p.ty),
        mutable: p.mutable,
        is_ref: p.is_ref,
    }
}

pub fn clone_params(ps: &Vec<HirParam>) -> (r: Vec<HirParam>)
    ensures
        view_params(r@) == view_params(ps@),
{
    let mut out: Vec<HirParam> = Vec::new();
    let mut i: usize = 0;
    while i < ps.len()
        invariant
            i <= ps@.len(),
            out@.len() == i,
            forall|j: int| 0 <= j < i ==> view_param(#[trigger] out@[j]) == view_param(ps@[j]),
        decreases ps.len() - i,
    {
        out.push(clone_param(&ps[i]));
        i = i + 1;
    }
    assert(view_params(out@) =~= view_params(ps@));
    out
}

pub fn clone_hir(e: &HirExpr) -> (r: HirExpr)
    ensures
        r@ == e@,
    decreases e,
{
    let kind = match &e.kind {
        HirExprKind::Unit => HirExprKind::Unit,
        HirExprKind::Var(name) => HirExprKind::Var(name.clone()),
        HirExprKind::ResolvedVar(v) => HirExprKind::ResolvedVar(
            HirVarRef { name: v.name.clone(), target: v.target },
        ),
        HirExprKind::FieldAccess(base, field) => HirExprKind::FieldAccess(
            Box::new(clone_hir(base)),
            field.clone(),
        ),
        HirExprKind::TupleIndex(base, index) => HirExprKind::TupleIndex(
            Box::new(clone_hir(base)),
            *index,
        ),
        HirExprKind::Deref(inner) => HirExprKind::Deref(Box::new(clone_hir(inner))),
        HirExprKind::Ref(mutable, inner) => HirExprKind::Ref(*mutable, Box::new(clone_hir(inner))),
        HirExprKind::TupleLiteral(items) => HirExprKind::TupleLiteral(clone_hirs(items)),
        HirExprKind::Call(callee, args) => HirExprKind::Call(
            Box::new(clone_hir(callee)),
            clone_hirs(args),
        ),
        HirExprKind::Lambda { params, body } => HirExprKind::Lambda {
            params: clone_params(params),
            body: HirBlock { stmts: clone_stmts(&body.stmts), ty: clone_type(&body.ty) },
        },
        HirExprKind::MethodCall(receiver, name, args, self_receiver, target) => {
            let target = match target {
                Some(t) => Some(clone_call_target(t)),
                None => None,
            };
            HirExprKind::MethodCall(
                Box::new(clone_hir(receiver)),
                name.clone(),
                clone_hirs(args),
                *self_receiver,
                target,
            )
        },
    };
    HirExpr { ty: clone_type(&e.ty), kind, span: e.span }
}

pub fn clone_hirs(es: &Vec<HirExpr>) -> (r: Vec<HirExpr>)
    ensures
        view_hirs(r@) == view_hirs(es@),
    decreases es,
{
    let mut out: Vec<HirExpr> = Vec::new();
    let mut i: usize = 0;
    while i < es.len()
        invariant
            i <= es@.len(),
            out@.len() == i,
            forall|j: int| 0 <= j < i ==> view_hir(#[trigger] out@[j]) == view_hir(es@[j]),
        decreases es.len() - i,
    {
        out.push(clone_hir(&es[i]));
        i = i + 1;
    }
    assert(view_hirs(out@) =~= view_hirs(es@));
    out
}

pub fn clone_stmts(ss: &Vec<HirStmt>) -> (r: Vec<HirStmt>)
    ensures
        view_stmts(r@) == view_stmts(ss@),
    decreases ss,
{
    let mut out: Vec<HirStmt> = Vec::new();
    let mut i: usize = 0;
    while i < ss.len()
        invariant
            i <= ss@.len(),
            out@.len() == i,
            forall|j: int|
                0 <= j < i ==> view_stmts(out@)[j] == #[trigger] view_stmts(ss@)[j],
        decreases ss.len() - i,
    {
        let c = match &ss[i] {
            HirStmt::Expr(e) => HirStmt::Expr(clone_hir(e)),
        };
        let ghost before = out@;
        out.push(c);
        proof {
            assert forall|j: int| 0 <= j < i + 1 implies view_stmts(out@)[j] == #[trigger] view_stmts(
                ss@,
            )[j] by {
                if j < i {
                    assert(out@[j] == before[j]);
                    assert(view_stmts(before)[j] == view_stmts(ss@)[j]);
                }
            }
        }
        i = i + 1;
    }
    assert(view_stmts(out@) =~= view_stmts(ss@));
    out
}

} // verus!
