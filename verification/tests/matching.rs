use rock_lib::hir::{
    HirImpl, HirImplReceiverPattern, HirMethodCallTarget, HirSelectedTraitMember, ParamBounds,
    TraitBound,
};
use rock_lib::ids::{AssociatedTypeKey, DefId, GenericParamId};
use rock_lib::matching::{
    impl_receiver_pattern_substitution, receiver_pattern, receiver_pattern_substitution,
    target_matches_impl, type_pattern_matches_after_subst,
};
use rock_lib::subst::Substitution;
use rock_lib::types::{
    CallableKind, CaptureKind, FunctionCapture, FunctionSafety, Kind, NominalTypeKind, Type,
};

fn def_id(index: u32) -> DefId {
    DefId::new(0, index)
}

fn make_impl(id: DefId, trait_id: Option<DefId>, receiver_pattern: HirImplReceiverPattern) -> HirImpl {
    HirImpl {
        id,
        type_generics: Vec::new(),
        receiver_pattern,
        trait_id,
        trait_arg_types: Vec::new(),
        bounds: Vec::new(),
    }
}

#[test]
fn canonical_nominal_receiver_pattern_matches_concrete_argument() {
    let impl_id = def_id(70);
    let nominal_id = def_id(69);
    let pattern = HirImplReceiverPattern::Exact(Type::Struct {
        id: nominal_id,
        args: vec![Type::Generic(GenericParamId { owner: impl_id, index: 0 })],
    });
    let receiver = Type::Struct { id: nominal_id, args: vec![Type::U8] };

    let expected = Substitution::from_pairs(vec![(
        GenericParamId { owner: impl_id, index: 0 },
        Type::U8,
    )]);
    let actual = receiver_pattern_substitution(&pattern, &receiver).unwrap();
    assert!(actual.same_as(&expected));
}

fn section(left_hole: bool) -> Type {
    Type::Lambda {
        params: vec![Kind::Type],
        body: Box::new(Type::Enum {
            id: def_id(85),
            args: if left_hole {
                vec![Type::BoundVar { depth: 0, index: 0, kind: Kind::Type }, Type::Bool]
            } else {
                vec![Type::I64, Type::BoundVar { depth: 0, index: 0, kind: Kind::Type }]
            },
        }),
    }
}

#[test]
fn higher_kinded_blanket_matches_constructor_sections_without_guessing() {
    let head = GenericParamId { owner: def_id(80), index: 0 };
    let item = GenericParamId { owner: def_id(80), index: 1 };
    let foldable = def_id(81);
    let mut blanket = make_impl(
        def_id(80),
        Some(def_id(82)),
        HirImplReceiverPattern::Exact(Type::Apply {
            constructor: Box::new(Type::Generic(head)),
            args: vec![Type::Generic(item)],
        }),
    );
    blanket.bounds.push(ParamBounds {
        param: head,
        bounds: vec![TraitBound { trait_id: foldable, type_args: vec![] }],
    });
    let option = make_impl(
        def_id(83),
        Some(foldable),
        HirImplReceiverPattern::Constructor(Type::Constructor {
            id: def_id(84),
            flavor: NominalTypeKind::Enum,
        }),
    );
    let option_value = Type::Enum { id: def_id(84), args: vec![Type::I64] };
    let substitution = impl_receiver_pattern_substitution(&blanket, &option_value, &[&option])
        .unwrap();
    assert_eq!(substitution.get(&item), Some(&Type::I64));
    assert!(impl_receiver_pattern_substitution(&blanket, &option_value, &[]).is_none());

    let result = make_impl(
        def_id(86),
        Some(foldable),
        HirImplReceiverPattern::Constructor(section(true)),
    );
    let result_value = Type::Enum { id: def_id(85), args: vec![Type::I64, Type::Bool] };
    let substitution = impl_receiver_pattern_substitution(&blanket, &result_value, &[&result])
        .unwrap();
    assert_eq!(substitution.get(&head), Some(&section(true)));
    assert_eq!(substitution.get(&item), Some(&Type::I64));
    let other_section = make_impl(
        def_id(87),
        Some(foldable),
        HirImplReceiverPattern::Constructor(section(false)),
    );
    assert!(impl_receiver_pattern_substitution(
        &blanket,
        &result_value,
        &[&result, &other_section]
    )
    .is_none());

    let inner = GenericParamId { owner: def_id(80), index: 2 };
    let nested_pattern = |inner_head| {
        HirImplReceiverPattern::Exact(Type::Apply {
            constructor: Box::new(Type::Generic(head)),
            args: vec![Type::Apply {
                constructor: Box::new(Type::Generic(inner_head)),
                args: vec![Type::Generic(item)],
            }],
        })
    };
    blanket.receiver_pattern = nested_pattern(inner);
    blanket.bounds.push(ParamBounds {
        param: inner,
        bounds: vec![TraitBound { trait_id: foldable, type_args: vec![] }],
    });
    let nested_value = Type::Enum { id: def_id(84), args: vec![result_value] };
    let substitution =
        impl_receiver_pattern_substitution(&blanket, &nested_value, &[&option, &result]).unwrap();
    assert_eq!(substitution.get(&item), Some(&Type::I64));
    assert_eq!(substitution.get(&inner), Some(&section(true)));
    assert_eq!(
        substitution.get(&head),
        Some(&Type::Constructor { id: def_id(84), flavor: NominalTypeKind::Enum })
    );
    assert!(impl_receiver_pattern_substitution(&blanket, &nested_value, &[&option]).is_none());
    assert!(impl_receiver_pattern_substitution(
        &blanket,
        &nested_value,
        &[&option, &result, &other_section]
    )
    .is_none());

    // A repeated head must denote the same constructor at both levels.
    blanket.receiver_pattern = nested_pattern(head);
    assert!(
        impl_receiver_pattern_substitution(&blanket, &nested_value, &[&option, &result]).is_none()
    );
}

#[test]
fn selection_receiver_pattern_cover_nominal_array_slice_and_ref() {
    assert_eq!(receiver_pattern(&Type::Array(Box::new(Type::U8), 4)), vec![Type::U8]);
    assert_eq!(
        receiver_pattern(&Type::Reference {
            mutable: false,
            inner: Box::new(Type::Slice(Box::new(Type::I64))),
        }),
        vec![Type::I64]
    );
    assert_eq!(receiver_pattern(&Type::Str), Vec::<Type>::new());
}

#[test]
fn type_pattern_matches_allows_safe_callable_for_unsafe_slot() {
    assert!(type_pattern_matches_after_subst(
        &Type::unsafe_function(vec![Type::I64], Type::Bool),
        &Type::function(vec![Type::I64], Type::Bool),
    ));
    assert!(!type_pattern_matches_after_subst(
        &Type::function(vec![Type::I64], Type::Bool),
        &Type::unsafe_function(vec![Type::I64], Type::Bool),
    ));
}

#[test]
fn type_pattern_matches_allows_nested_safe_callable_for_unsafe_slot() {
    assert!(type_pattern_matches_after_subst(
        &Type::Tuple(vec![Type::unsafe_function(vec![Type::I64], Type::Bool), Type::I64]),
        &Type::Tuple(vec![Type::function(vec![Type::I64], Type::Bool), Type::I64]),
    ));
}

#[test]
fn type_pattern_matches_treats_empty_capture_signature_metadata_as_wildcard() {
    let actual = Type::function_with_metadata(
        vec![Type::I64],
        Type::Bool,
        FunctionSafety::Safe,
        CallableKind::FnMut,
        vec![FunctionCapture::new(CaptureKind::MutableBorrow, Type::I64)],
    );

    assert!(type_pattern_matches_after_subst(
        &Type::function(vec![Type::I64], Type::Bool),
        &actual,
    ));
}

#[test]
fn type_pattern_matches_uses_contravariant_function_params() {
    assert!(!type_pattern_matches_after_subst(
        &Type::function(vec![Type::unsafe_function(Vec::new(), Type::I64)], Type::I64),
        &Type::function(vec![Type::function(Vec::new(), Type::I64)], Type::I64),
    ));
    assert!(type_pattern_matches_after_subst(
        &Type::function(vec![Type::function(Vec::new(), Type::I64)], Type::I64),
        &Type::function(vec![Type::unsafe_function(Vec::new(), Type::I64)], Type::I64),
    ));
}

#[test]
fn type_pattern_matches_recurses_projection_args() {
    let trait_id = def_id(10);
    let assoc_type = AssociatedTypeKey { owner: trait_id, assoc_type_id: 0 };

    assert!(type_pattern_matches_after_subst(
        &Type::Projection {
            ty: Box::new(Type::I64),
            trait_id,
            assoc_type,
            trait_args: vec![Type::unsafe_function(Vec::new(), Type::I64)],
        },
        &Type::Projection {
            ty: Box::new(Type::I64),
            trait_id,
            assoc_type,
            trait_args: vec![Type::function(Vec::new(), Type::I64)],
        },
    ));
}

#[test]
fn type_pattern_matches_treats_mut_ref_and_pointer_as_invariant() {
    assert!(!type_pattern_matches_after_subst(
        &Type::Reference {
            mutable: true,
            inner: Box::new(Type::unsafe_function(Vec::new(), Type::I64)),
        },
        &Type::Reference {
            mutable: true,
            inner: Box::new(Type::function(Vec::new(), Type::I64)),
        },
    ));
    assert!(!type_pattern_matches_after_subst(
        &Type::Pointer(Box::new(Type::unsafe_function(Vec::new(), Type::I64))),
        &Type::Pointer(Box::new(Type::function(Vec::new(), Type::I64))),
    ));
}

#[test]
fn selection_target_matching_rejects_wrong_impl_identity() {
    let imp = make_impl(def_id(1), None, HirImplReceiverPattern::Exact(Type::Unit));
    let target = HirMethodCallTarget::impl_method(def_id(2), def_id(3), None);

    assert!(!target_matches_impl(&imp, Some(&target)));
    assert!(target_matches_impl(&imp, None));
}

#[test]
fn selection_target_matching_rejects_wrong_trait_identity_when_impl_matches() {
    let imp = make_impl(def_id(1), Some(def_id(10)), HirImplReceiverPattern::Exact(Type::Unit));
    let target = HirMethodCallTarget::impl_method(
        def_id(1),
        def_id(3),
        Some(HirSelectedTraitMember {
            trait_id: def_id(11),
            member_id: def_id(3),
            trait_args: Vec::new(),
        }),
    );

    assert!(!target_matches_impl(&imp, Some(&target)));
}
