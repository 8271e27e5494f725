use vstd::prelude::*;
use crate::ids::{DefId, GenericParamId};
use crate::types::{clone_type, clone_types, view_type, view_types, Kind, SpecType, Type};

verus! {

/// How an impl's receiver is matched against a concrete receiver type.
#[derive(Debug)]
pub enum HirImplReceiverPattern {
    /// The receiver must match this type (possibly through one reference).
    Exact(Type),
    /// Any slice or array (possibly behind a reference) of a matching element.
    SliceFamily { element: Type },
    /// A type constructor: a nominal constructor or a type lambda (a section).
    Constructor(Type),
}

/// A trait bound `T: Trait<type_args>`.
#[derive(Debug)]
pub struct TraitBound {
    pub trait_id: DefId,
    pub type_args: Vec<Type>,
}

/// The mathematical value of a [`TraitBound`].
pub struct SpecTraitBound {
    pub trait_id: DefId,
    pub type_args: Seq<SpecType>,
}

impl View for TraitBound {
    type V = SpecTraitBound;

    open spec fn view(&self) -> SpecTraitBound {
        SpecTraitBound { trait_id: self.trait_id, type_args: view_types(self.type_args@) }
    }
}

/// A declared generic parameter.
#[derive(Clone, Copy, Debug, PartialEq, Eq, Structural)]
pub struct GenericParamDecl {
    pub id: GenericParamId,
    pub kind: Kind,
}

/// The bounds an impl places on one of its generic parameters.
#[derive(Debug)]
pub struct ParamBounds {
    pub param: GenericParamId,
    pub bounds: Vec<TraitBound>,
}

/// An impl block as selection sees it.
#[derive(Debug)]
pub struct HirImpl {
    pub id: DefId,
    pub type_generics: Vec<GenericParamDecl>,
    pub receiver_pattern: HirImplReceiverPattern,
    pub trait_id: Option<DefId>,
    pub trait_arg_types: Vec<Type>,
    pub bounds: Vec<ParamBounds>,
}

/// The trait member that a method call was resolved through.
#[derive(Debug)]
pub struct HirSelectedTraitMember {
    pub trait_id: DefId,
    pub member_id: DefId,
    pub trait_args: Vec<Type>,
}

/// What a method call was resolved to.
#[derive(Debug)]
pub enum HirSelectedMethodTarget {
    /// A method defined in an impl block.
    ImplMethod {
        impl_id: DefId,
        method_id: DefId,
        selected_trait: Option<HirSelectedTraitMember>,
    },
    /// A trait member called through a bound, before an impl is known.
    BoundMethod { trait_id: DefId, member_id: DefId },
}

/// A generic parameter of a call target bound to a type.
#[derive(Debug)]
pub struct HirTypeBinding {
    pub param: GenericParamId,
    pub ty: Type,
}

/// The resolved target of a method call, with the type arguments of the
/// owner (impl or trait) and of the method itself.
#[derive(Debug)]
pub struct HirMethodCallTarget {
    pub target: HirSelectedMethodTarget,
    pub owner_substitution: Vec<HirTypeBinding>,
    pub method_substitution: Vec<HirTypeBinding>,
}

impl HirMethodCallTarget {
    pub fn impl_method(
        impl_id: DefId,
        method_id: DefId,
        selected_trait: Option<HirSelectedTraitMember>,
    ) -> (t: HirMethodCallTarget)
        ensures
            t.spec_impl_id() == Some(impl_id),
            t.spec_method_id() == Some(method_id),
            t.spec_trait_id() == (match selected_trait {
                Some(member) => Some(member.trait_id),
                None => None,
            }),
            t.owner_substitution@.len() == 0,
            t.method_substitution@.len() == 0,
    {
        HirMethodCallTarget {
            target: HirSelectedMethodTarget::ImplMethod { impl_id, method_id, selected_trait },
            owner_substitution: Vec::new(),
            method_substitution: Vec::new(),
        }
    }

    pub open spec fn spec_impl_id(&self) -> Option<DefId> {
        match self.target {
            HirSelectedMethodTarget::ImplMethod { impl_id, .. } => Some(impl_id),
            HirSelectedMethodTarget::BoundMethod { .. } => None,
        }
    }

    pub open spec fn spec_method_id(&self) -> Option<DefId> {
        match self.target {
            HirSelectedMethodTarget::ImplMethod { method_id, .. } => Some(method_id),
            HirSelectedMethodTarget::BoundMethod { member_id, .. } => Some(member_id),
        }
    }

    pub open spec fn spec_trait_id(&self) -> Option<DefId> {
        match self.target {
            HirSelectedMethodTarget::ImplMethod { selected_trait, .. } => match selected_trait {
                Some(member) => Some(member.trait_id),
                None => None,
            },
            HirSelectedMethodTarget::BoundMethod { trait_id, .. } => Some(trait_id),
        }
    }

    /// The impl that defines the called method, once known.
    #[verifier::when_used_as_spec(spec_impl_id)]
    pub fn impl_id(&self) -> (r: Option<DefId>)
        ensures
            r == self.spec_impl_id(),
    {
        match &self.target {
            HirSelectedMethodTarget::ImplMethod { impl_id, .. } => Some(*impl_id),
            HirSelectedMethodTarget::BoundMethod { .. } => None,
        }
    }

    /// The called method or trait member.
    #[verifier::when_used_as_spec(spec_method_id)]
    pub fn method_id(&self) -> (r: Option<DefId>)
        ensures
            r == self.spec_method_id(),
    {
        match &self.target {
            HirSelectedMethodTarget::ImplMethod { method_id, .. } => Some(*method_id),
            HirSelectedMethodTarget::BoundMethod { member_id, .. } => Some(*member_id),
        }
    }

    /// The trait the call goes through, if any.
    #[verifier::when_used_as_spec(spec_trait_id)]
    pub fn trait_id(&self) -> (r: Option<DefId>)
        ensures
            r == self.spec_trait_id(),
    {
        match &self.target {
            HirSelectedMethodTarget::ImplMethod { selected_trait, .. } => match selected_trait {
                Some(member) => Some(member.trait_id),
                None => None,
            },
            HirSelectedMethodTarget::BoundMethod { trait_id, .. } => Some(*trait_id),
        }
    }
}

// ---------------------------------------------------------------------------
// Mathematical values of call targets, and copies that keep them.
// ---------------------------------------------------------------------------

/// The mathematical value of a [`HirSelectedMethodTarget`]; the selected
/// trait member is its trait, its member and its trait arguments.
pub enum SpecSelectedMethodTarget {
    ImplMethod {
        impl_id: DefId,
        method_id: DefId,
        selected_trait: Option<(DefId, DefId, Seq<SpecType>)>,
    },
    BoundMethod { trait_id: DefId, member_id: DefId },
}

/// The mathematical value of a [`HirMethodCallTarget`].
pub struct SpecCallTarget {
    pub target: SpecSelectedMethodTarget,
    pub owner_substitution: Seq<(GenericParamId, SpecType)>,
    pub method_substitution: Seq<(GenericParamId, SpecType)>,
}

pub open spec fn view_type_bindings(bs: Seq<HirTypeBinding>) -> Seq<(GenericParamId, SpecType)> {
    bs.map_values(|b: HirTypeBinding| (b.param, view_type(b.ty)))
}

pub open spec fn view_selected_target(t: HirSelectedMethodTarget) -> SpecSelectedMethodTarget {
    match t {
        HirSelectedMethodTarget::ImplMethod { impl_id, method_id, selected_trait } =>
            SpecSelectedMethodTarget::ImplMethod {
            impl_id,
            method_id,
            selected_trait: match selected_trait {
                Some(m) => Some((m.trait_id, m.member_id, view_types(m.trait_args@))),
                None => None,
            },
        },
        HirSelectedMethodTarget::BoundMethod { trait_id, member_id } =>
            SpecSelectedMethodTarget::BoundMethod { trait_id, member_id },
    }
}

pub open spec fn view_call_target(t: HirMethodCallTarget) -> SpecCallTarget {
    SpecCallTarget {
        target: view_selected_target(t.target),
        owner_substitution: view_type_bindings(t.owner_substitution@),
        method_substitution: view_type_bindings(t.method_substitution@),
    }
}

pub fn clone_type_bindings(bs: &Vec<HirTypeBinding>) -> (r: Vec<HirTypeBinding>)
    ensures
        view_type_bindings(r@) == view_type_bindings(bs@),
{
    let mut out: Vec<HirTypeBinding> = Vec::new();
    let mut i: usize = 0;
    while i < bs.len()
        invariant
            i <= bs@.len(),
            out@.len() == i,
            forall|j: int|
                0 <= j < i ==> (#[trigger] out@[j]).param == bs@[j].param && view_type(out@[j].ty)
                    == view_type(bs@[j].ty),
        decreases bs.len() - i,
    {
        out.push(HirTypeBinding { param: bs[i].param, ty: clone_type(&bs[i].ty) });
        i = i + 1;
    }
    assert(view_type_bindings(out@) =~= view_type_bindings(bs@));
    out
}

pub fn clone_call_target(t: &HirMethodCallTarget) -> (r: HirMethodCallTarget)
    ensures
        view_call_target(r) == view_call_target(*t),
{
    let target = match &t.target {
        HirSelectedMethodTarget::ImplMethod { impl_id, method_id, selected_trait } => {
            let selected_trait = match selected_trait {
                Some(m) => Some(
                    HirSelectedTraitMember {
                        trait_id: m.trait_id,
                        member_id: m.member_id,
                        trait_args: clone_types(&m.trait_args),
                    },
                ),
                None => None,
            };
            HirSelectedMethodTarget::ImplMethod {
                impl_id: *impl_id,
                method_id: *method_id,
                selected_trait,
            }
        },
        HirSelectedMethodTarget::BoundMethod { trait_id, member_id } =>
            HirSelectedMethodTarget::BoundMethod { trait_id: *trait_id, member_id: *member_id },
    };
    HirMethodCallTarget {
        target,
        owner_substitution: clone_type_bindings(&t.owner_substitution),
        method_substitution: clone_type_bindings(&t.method_substitution),
    }
}

} // verus!
