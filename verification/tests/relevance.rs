use bound_inference::equality_sets::{ConstraintSet, TypeEqualitySetRef, TypeEqualitySets};
use bound_inference::error::InferenceError;
use bound_inference::generics::{
    GenericArgument, GenericConstraint, Generics, PredicateLifetime, PredicateType, TraitBound,
    TypeParamBound,
};
use bound_inference::ident::{GenericParam, Ident, LifetimeRef, TypeParamRef};
use bound_inference::most_concrete::MostConcreteTypeMap;
use bound_inference::path::{
    AngleBracketedGenericArguments, ParenthesizedGenericArguments, Path, PathArguments,
    PathSegment,
};
use bound_inference::relevance::{iter_option_to_option_vec, SetRefs};
use bound_inference::trait_inference::{
    generic_param_set_refs, CompleteFunction, CompleteImpl, Function, Invoke, Parent, Signature,
};
use bound_inference::ty::{Type, TypeNode};

fn param(id: usize) -> Type {
    Type(TypeNode::TypeParam(TypeParamRef(id)))
}

fn types(args: Vec<Type>) -> PathArguments {
    PathArguments::AngleBracketed(AngleBracketedGenericArguments {
        args: args.into_iter().map(GenericArgument::Type).collect(),
    })
}

fn path(names: &[&str], args: PathArguments) -> Path {
    let mut segments: Vec<PathSegment> = names
        .iter()
        .map(|name| PathSegment { ident: Ident::new(name), args: PathArguments::Empty })
        .collect();
    segments.last_mut().unwrap().args = args;
    Path { global: false, path: segments }
}

fn bound(path: Path) -> TypeParamBound {
    TypeParamBound::Trait(TraitBound { lifetimes: Vec::new(), path })
}

fn predicate(ty: Type, bounds: Vec<TypeParamBound>) -> PredicateType {
    PredicateType { lifetimes: Vec::new(), bounded_ty: ty, bounds }
}

fn constraint(ty: Type, name: &str) -> GenericConstraint {
    GenericConstraint::Type(predicate(ty, vec![bound(path(&[name], PathArguments::Empty))]))
}

fn function() -> PathArguments {
    PathArguments::Parenthesized(ParenthesizedGenericArguments { inputs: Vec::new(), output: None })
}

/// A store in which each of the given parameters has a set of its own, and
/// the sets of the first `relevant` of them are relevant.
fn store(params: usize, relevant: usize) -> (TypeEqualitySets, SetRefs) {
    let mut sets = TypeEqualitySets::new();
    let mut refs = SetRefs::new();
    for id in 0..params {
        let set_ref = sets.new_set(param(id));
        if id < relevant {
            refs.insert(set_ref);
        }
    }
    (sets, refs)
}

fn collected(set: &ConstraintSet) -> Vec<GenericConstraint> {
    (0..set.len()).map(|index| set.get(index).clone()).collect()
}

fn structure(params: Vec<GenericParam>, constraints: Vec<GenericConstraint>) -> Type {
    Type(TypeNode::DataStructure {
        name: Ident::new("Holder"),
        generics: Generics { params, constraints },
        data: bound_inference::data::Data { fields: Vec::new() },
    })
}

#[test]
fn set_refs_hold_each_set_once() {
    let mut refs = SetRefs::new();
    assert!(!refs.contains(TypeEqualitySetRef(2)));
    assert!(refs.insert(TypeEqualitySetRef(2)));
    assert!(!refs.insert(TypeEqualitySetRef(2)));
    assert!(refs.contains(TypeEqualitySetRef(2)));
    assert!(!refs.contains(TypeEqualitySetRef(0)));
}

#[test]
fn type_parameter_is_relevant_where_its_set_is() {
    let (sets, refs) = store(2, 1);
    assert!(param(0).0.is_relevant(&sets, &refs));
    assert!(!param(1).0.is_relevant(&sets, &refs));
    assert!(!param(2).0.is_relevant(&sets, &refs));
}

#[test]
fn reference_is_relevant_where_its_target_is() {
    let (sets, refs) = store(2, 1);
    assert!(param(0).reference().0.is_relevant(&sets, &refs));
    assert!(param(0).reference_mut().reference().0.is_relevant(&sets, &refs));
    assert!(!param(1).reference().0.is_relevant(&sets, &refs));
}

#[test]
fn other_types_are_not_relevant() {
    let (sets, refs) = store(1, 1);
    assert!(!Type::tuple(&[param(0)]).0.is_relevant(&sets, &refs));
    assert!(!Type::primitive_str().0.is_relevant(&sets, &refs));
    assert!(!TypeNode::Infer.is_relevant(&sets, &refs));
    assert!(!TypeNode::Path(path(&["Name"], PathArguments::Empty)).is_relevant(&sets, &refs));
    assert!(!param(0).dereference().0.is_relevant(&sets, &refs));
}

#[test]
fn relevance_grows_with_the_relevant_sets() {
    let (sets, few) = store(3, 1);
    let (_, more) = store(3, 2);
    for ty in vec![param(0), param(1), param(2), param(0).reference(), param(1).reference_mut()] {
        if ty.0.is_relevant(&sets, &few) {
            assert!(ty.0.is_relevant(&sets, &more));
        }
    }
    assert!(!param(1).0.is_relevant(&sets, &few));
    assert!(param(1).0.is_relevant(&sets, &more));
}

#[test]
fn path_is_relevant_where_its_last_type_arguments_are() {
    let (sets, refs) = store(2, 1);
    assert_eq!(path(&["Display"], PathArguments::Empty).is_relevant(&sets, &refs), Ok(true));
    assert_eq!(path(&["From"], types(vec![param(0)])).is_relevant(&sets, &refs), Ok(true));
    assert_eq!(path(&["From"], types(vec![param(0), param(1)])).is_relevant(&sets, &refs), Ok(false));
    let lifetime = PathArguments::AngleBracketed(AngleBracketedGenericArguments {
        args: vec![GenericArgument::Lifetime(LifetimeRef(0)), GenericArgument::Type(param(0))],
    });
    assert_eq!(path(&["Borrow"], lifetime).is_relevant(&sets, &refs), Ok(true));
    // Only the last segment counts.
    let mut inner = path(&["outer", "Last"], PathArguments::Empty);
    inner.path[0].args = types(vec![param(1)]);
    assert_eq!(inner.is_relevant(&sets, &refs), Ok(true));
}

#[test]
fn path_that_cannot_be_judged() {
    let (sets, refs) = store(1, 1);
    assert_eq!(
        path(&["Fn"], function()).is_relevant(&sets, &refs),
        Err(InferenceError::UnsupportedConstruct)
    );
    assert_eq!(Path::root().is_relevant(&sets, &refs), Err(InferenceError::InternalInconsistency));
}

#[test]
fn bound_is_relevant_where_its_trait_is() {
    let (sets, refs) = store(2, 1);
    assert_eq!(TypeParamBound::Lifetime(LifetimeRef(3)).is_relevant(&sets, &refs), Ok(true));
    assert_eq!(bound(path(&["From"], types(vec![param(1)]))).is_relevant(&sets, &refs), Ok(false));
    assert_eq!(
        bound(path(&["Fn"], function())).is_relevant(&sets, &refs),
        Err(InferenceError::UnsupportedConstruct)
    );
}

#[test]
fn predicate_is_relevant_where_all_of_it_is() {
    let (sets, refs) = store(2, 1);
    let relevant = bound(path(&["From"], types(vec![param(0)])));
    let irrelevant = bound(path(&["From"], types(vec![param(1)])));
    let unsupported = bound(path(&["Fn"], function()));
    assert_eq!(predicate(param(0), vec![relevant.clone()]).is_relevant(&sets, &refs), Ok(true));
    assert_eq!(predicate(param(0), vec![]).is_relevant(&sets, &refs), Ok(true));
    assert_eq!(
        predicate(param(0), vec![relevant.clone(), irrelevant.clone()]).is_relevant(&sets, &refs),
        Ok(false)
    );
    // The first bound that is not relevant, or cannot be judged, decides.
    assert_eq!(
        predicate(param(0), vec![irrelevant.clone(), unsupported.clone()]).is_relevant(&sets, &refs),
        Ok(false)
    );
    assert_eq!(
        predicate(param(0), vec![relevant, unsupported.clone(), irrelevant])
            .is_relevant(&sets, &refs),
        Err(InferenceError::UnsupportedConstruct)
    );
    // The bounds are not looked at where the bounded type is not relevant.
    assert_eq!(predicate(param(1), vec![unsupported]).is_relevant(&sets, &refs), Ok(false));
}

#[test]
fn all_values_or_none() {
    assert_eq!(iter_option_to_option_vec(vec![Some(1), Some(2), Some(3)]), Some(vec![1, 2, 3]));
    assert_eq!(iter_option_to_option_vec(vec![Some(1), None, Some(3)]), None);
    assert_eq!(iter_option_to_option_vec(vec![None::<u8>]), None);
    assert_eq!(iter_option_to_option_vec(Vec::<Option<u8>>::new()), Some(Vec::new()));
}

#[test]
fn most_relevant_type_is_resolved_first() {
    let mut sets = TypeEqualitySets::new();
    let mut constraints = ConstraintSet::new();
    sets.insert_as_equal_to(param(5), param(2), &mut constraints).unwrap();
    let mut refs = SetRefs::new();
    refs.insert(TypeEqualitySetRef(0));
    let mut memo = MostConcreteTypeMap::new();
    assert_eq!(param(5).0.make_most_relevant(&mut memo, &sets, &refs), Ok(Some(param(2).0)));
    assert_eq!(param(7).0.make_most_relevant(&mut memo, &sets, &refs), Ok(None));
    assert_eq!(
        param(5).reference().0.make_most_relevant(&mut memo, &sets, &refs),
        Ok(Some(param(5).reference().0))
    );
}

#[test]
fn most_relevant_path_has_its_arguments_resolved() {
    let mut sets = TypeEqualitySets::new();
    let mut constraints = ConstraintSet::new();
    sets.insert_as_equal_to(param(5), param(2), &mut constraints).unwrap();
    let mut refs = SetRefs::new();
    refs.insert(TypeEqualitySetRef(0));
    let mut memo = MostConcreteTypeMap::new();
    assert_eq!(
        path(&["a", "From"], types(vec![param(5)])).make_most_relevant(&mut memo, &sets, &refs),
        Ok(Some(path(&["a", "From"], types(vec![param(2)]))))
    );
    assert_eq!(memo.get(TypeEqualitySetRef(0)), Some(param(2).0));
    assert_eq!(
        path(&["From"], types(vec![param(5), param(9)])).make_most_relevant(&mut memo, &sets, &refs),
        Ok(None)
    );
    assert_eq!(
        path(&["Display"], PathArguments::Empty).make_most_relevant(&mut memo, &sets, &refs),
        Ok(Some(path(&["Display"], PathArguments::Empty)))
    );
    assert_eq!(
        path(&["Fn"], function()).make_most_relevant(&mut memo, &sets, &refs),
        Err(InferenceError::UnsupportedConstruct)
    );
    assert_eq!(
        Path::empty().make_most_relevant(&mut memo, &sets, &refs),
        Err(InferenceError::InternalInconsistency)
    );
}

#[test]
fn most_relevant_constraint_keeps_all_bounds_or_goes() {
    let (sets, refs) = store(2, 1);
    let mut memo = MostConcreteTypeMap::new();
    let relevant = bound(path(&["From"], types(vec![param(0)])));
    let irrelevant = bound(path(&["From"], types(vec![param(1)])));
    let lifetime = TypeParamBound::Lifetime(LifetimeRef(1));
    let kept = GenericConstraint::Type(predicate(param(0), vec![relevant.clone(), lifetime.clone()]));
    assert_eq!(kept.clone().make_most_relevant(&mut memo, &sets, &refs), Ok(Some(kept)));
    let dropped = GenericConstraint::Type(predicate(param(0), vec![relevant, irrelevant]));
    assert_eq!(dropped.make_most_relevant(&mut memo, &sets, &refs), Ok(None));
    let unbounded = GenericConstraint::Type(predicate(param(1), vec![lifetime]));
    assert_eq!(unbounded.make_most_relevant(&mut memo, &sets, &refs), Ok(None));
    let outlives = GenericConstraint::Lifetime(PredicateLifetime {
        lifetime: LifetimeRef(0),
        bounds: vec![LifetimeRef(1)],
    });
    assert_eq!(outlives.clone().make_most_relevant(&mut memo, &sets, &refs), Ok(Some(outlives)));
    assert_eq!(
        lifetime_bound().make_most_relevant(&mut memo, &sets, &refs),
        Ok(Some(lifetime_bound()))
    );
}

fn lifetime_bound() -> TypeParamBound {
    TypeParamBound::Lifetime(LifetimeRef(4))
}

#[test]
fn filtering_twice_changes_nothing() {
    let mut sets = TypeEqualitySets::new();
    let mut none = ConstraintSet::new();
    sets.insert_as_equal_to(param(5), param(2), &mut none).unwrap();
    sets.new_set(param(7));
    let mut refs = SetRefs::new();
    refs.insert(TypeEqualitySetRef(0));
    let mut constraints = ConstraintSet::new();
    constraints.insert(constraint(param(5), "Clone"));
    constraints.insert(constraint(param(7), "Clone"));
    constraints.insert(constraint(param(2), "Clone"));
    constraints.insert(constraint(param(2).reference(), "Debug"));
    constraints.insert(GenericConstraint::Type(predicate(
        param(2),
        vec![bound(path(&["From"], types(vec![param(5)])))],
    )));
    let mut memo = MostConcreteTypeMap::new();
    let once = constraints.make_most_relevant(&mut memo, &sets, &refs).unwrap();
    assert_eq!(
        collected(&once),
        vec![
            constraint(param(2), "Clone"),
            constraint(param(2).reference(), "Debug"),
            GenericConstraint::Type(predicate(
                param(2),
                vec![bound(path(&["From"], types(vec![param(2)])))],
            )),
        ]
    );
    let twice = once.make_most_relevant(&mut memo, &sets, &refs).unwrap();
    assert_eq!(collected(&twice), collected(&once));
}

#[test]
fn relevant_sets_reach_into_most_concrete_types() {
    // The set of P resolves to a tuple that holds Q and a path over R.
    let p = 0;
    let q = 1;
    let r = 2;
    let mut sets = TypeEqualitySets::new();
    let mut memo = MostConcreteTypeMap::new();
    let set_of_p = sets.new_set(param(p));
    sets.new_set(param(q));
    let inner = Type::tuple(&[
        param(q).reference(),
        Type(TypeNode::Path(path(&["Vec"], types(vec![param(r)])))),
    ]);
    memo.insert(set_of_p, inner.0);
    let refs =
        generic_param_set_refs(&vec![GenericParam::Type(TypeParamRef(p))], &mut memo, &mut sets)
            .unwrap();
    // R was in no set, and got one.
    assert_eq!(sets.len(), 3);
    assert!(refs.contains(sets.get_set_ref(&param(q)).unwrap()));
    assert!(refs.contains(sets.get_set_ref(&param(r)).unwrap()));
    assert!(param(q).0.is_relevant(&sets, &refs));
    assert!(param(r).0.is_relevant(&sets, &refs));
    // The set of P itself is looked through, not gathered.
    assert!(!refs.contains(set_of_p));
}

#[test]
fn relevant_sets_of_plain_parameters() {
    let mut sets = TypeEqualitySets::new();
    let mut none = ConstraintSet::new();
    sets.insert_as_equal_to(param(3), param(1), &mut none).unwrap();
    let mut memo = MostConcreteTypeMap::new();
    let params = vec![
        GenericParam::Type(TypeParamRef(1)),
        GenericParam::Type(TypeParamRef(3)),
        GenericParam::Type(TypeParamRef(8)),
    ];
    let refs = generic_param_set_refs(&params, &mut memo, &mut sets).unwrap();
    assert_eq!(sets.len(), 2);
    assert!(refs.contains(TypeEqualitySetRef(0)));
    assert!(refs.contains(TypeEqualitySetRef(1)));
    assert_eq!(memo.get(TypeEqualitySetRef(0)), Some(param(1).0));
    assert_eq!(memo.get(TypeEqualitySetRef(1)), Some(param(8).0));
}

#[test]
fn lifetime_parameter_is_not_handled() {
    let mut sets = TypeEqualitySets::new();
    let mut memo = MostConcreteTypeMap::new();
    let params = vec![GenericParam::Type(TypeParamRef(1)), GenericParam::Lifetime(LifetimeRef(0))];
    assert_eq!(
        generic_param_set_refs(&params, &mut memo, &mut sets).err(),
        Some(InferenceError::UnsupportedConstruct)
    );
    let imp = CompleteImpl {
        trait_ty: None,
        ty: structure(params, Vec::new()),
        functions: Vec::new(),
    };
    assert_eq!(imp.compute_trait_bounds().err(), Some(InferenceError::UnsupportedConstruct));
}

#[test]
fn inner_parameters_of_unsupported_paths() {
    let mut sets = TypeEqualitySets::new();
    let mut refs = SetRefs::new();
    assert_eq!(
        TypeNode::Path(path(&["Fn"], function())).inner_param_set_refs(&mut sets, &mut refs),
        Err(InferenceError::UnsupportedConstruct)
    );
    let lifetime = PathArguments::AngleBracketed(AngleBracketedGenericArguments {
        args: vec![GenericArgument::Type(param(0)), GenericArgument::Lifetime(LifetimeRef(0))],
    });
    assert_eq!(
        path(&["Ref"], lifetime).inner_param_set_refs(&mut sets, &mut refs),
        Err(InferenceError::UnsupportedConstruct)
    );
    // The parameter in front of the lifetime was gathered.
    assert!(refs.contains(sets.get_set_ref(&param(0)).unwrap()));
    assert_eq!(TypeNode::PrimitiveStr.inner_param_set_refs(&mut sets, &mut refs), Ok(()));
    assert_eq!(sets.len(), 1);
}

#[test]
fn irrelevant_constraints_are_dropped() {
    // impl<P> for Holder<P>; a helper declares `T: Clone` and `U: Default`,
    // and only T meets P.
    let p = 0;
    let t = 1;
    let u = 2;
    let helper = Generics {
        params: vec![GenericParam::Type(TypeParamRef(t)), GenericParam::Type(TypeParamRef(u))],
        constraints: vec![constraint(param(t), "Clone"), constraint(param(u), "Default")],
    };
    let invoke = Invoke {
        function: Function {
            parent: None,
            sig: Signature { generics: Some(helper), inputs: vec![param(t), param(u)] },
        },
        args: vec![param(p)],
    };
    let imp = CompleteImpl {
        trait_ty: None,
        ty: structure(vec![GenericParam::Type(TypeParamRef(p))], Vec::new()),
        functions: vec![CompleteFunction { invokes: vec![invoke] }],
    };
    let bounds = imp.compute_trait_bounds().unwrap();
    assert_eq!(collected(&bounds), vec![constraint(param(p), "Clone")]);
}

#[test]
fn trait_generics_are_relevant_too() {
    let p = 0;
    let s = 1;
    let of_trait = Parent {
        generics: Some(Generics {
            params: vec![GenericParam::Type(TypeParamRef(s))],
            constraints: vec![constraint(param(s), "Sized")],
        }),
    };
    let imp = CompleteImpl {
        trait_ty: Some(of_trait),
        ty: structure(
            vec![GenericParam::Type(TypeParamRef(p))],
            vec![constraint(param(p), "Debug")],
        ),
        functions: Vec::new(),
    };
    let bounds = imp.compute_trait_bounds().unwrap();
    assert_eq!(collected(&bounds), vec![constraint(param(p), "Debug"), constraint(param(s), "Sized")]);
}

#[test]
fn implementation_without_parameters_has_no_bounds() {
    let imp = CompleteImpl {
        trait_ty: None,
        ty: Type::primitive_str(),
        functions: vec![CompleteFunction { invokes: Vec::new() }],
    };
    assert_eq!(imp.compute_trait_bounds().unwrap().len(), 0);
}

#[test]
fn unsupported_bound_fails_the_analysis() {
    let p = 0;
    let declared = GenericConstraint::Type(predicate(param(p), vec![bound(path(&["Fn"], function()))]));
    let imp = CompleteImpl {
        trait_ty: None,
        ty: structure(vec![GenericParam::Type(TypeParamRef(p))], vec![declared]),
        functions: Vec::new(),
    };
    assert_eq!(imp.compute_trait_bounds().err(), Some(InferenceError::UnsupportedConstruct));
}

#[test]
fn unsettled_constraint_changes_when_filtered_again() {
    // Parameter 5 is a member of the first set, and was then moved to the
    // second: what the first set resolves to stands for something else.
    let mut sets = TypeEqualitySets::new();
    let mut none = ConstraintSet::new();
    sets.insert_as_equal_to(param(9), param(5), &mut none).unwrap();
    sets.insert_as_equal_to(param(1), param(2), &mut none).unwrap();
    sets.insert_as_equal_to(param(1), param(5), &mut none).unwrap();
    assert_eq!(sets.get_set_ref(&param(9)), Some(TypeEqualitySetRef(0)));
    assert_eq!(sets.get_set_ref(&param(5)), Some(TypeEqualitySetRef(1)));
    let mut refs = SetRefs::new();
    refs.insert(TypeEqualitySetRef(0));
    refs.insert(TypeEqualitySetRef(1));
    let mut constraints = ConstraintSet::new();
    constraints.insert(constraint(param(9), "Clone"));
    let mut memo = MostConcreteTypeMap::new();
    let once = constraints.make_most_relevant(&mut memo, &sets, &refs).unwrap();
    assert_eq!(collected(&once), vec![constraint(param(5), "Clone")]);
    let twice = once.make_most_relevant(&mut memo, &sets, &refs).unwrap();
    assert_eq!(collected(&twice), vec![constraint(param(1), "Clone")]);
    let thrice = twice.make_most_relevant(&mut memo, &sets, &refs).unwrap();
    assert_eq!(collected(&thrice), collected(&twice));
}

#[test]
fn seeds_are_taken_once_and_in_order() {
    // The parameters are declared out of order and twice; P stands for T.
    let p = 4;
    let q = 2;
    let t = 9;
    let helper = Generics {
        params: vec![GenericParam::Type(TypeParamRef(t))],
        constraints: vec![constraint(param(t), "Clone")],
    };
    let invoke = Invoke {
        function: Function {
            parent: None,
            sig: Signature { generics: Some(helper), inputs: vec![param(t)] },
        },
        args: vec![param(p)],
    };
    let of_trait = Parent {
        generics: Some(Generics {
            params: vec![GenericParam::Type(TypeParamRef(q)), GenericParam::Type(TypeParamRef(p))],
            constraints: vec![constraint(param(q), "Sized")],
        }),
    };
    let imp = CompleteImpl {
        trait_ty: Some(of_trait),
        ty: structure(
            vec![GenericParam::Type(TypeParamRef(p)), GenericParam::Type(TypeParamRef(p))],
            vec![constraint(param(p), "Debug")],
        ),
        functions: vec![CompleteFunction { invokes: vec![invoke] }],
    };
    let bounds = imp.compute_trait_bounds().unwrap();
    assert_eq!(
        collected(&bounds),
        vec![
            constraint(param(p), "Debug"),
            constraint(param(q), "Sized"),
            constraint(param(p), "Clone"),
        ]
    );
}

#[test]
fn bound_on_a_parameter_that_is_a_named_type_goes() {
    // P meets a path: the set of both resolves to the path, which is not
    // relevant, so the bound on P goes; the bound on Q stays.
    let p = 0;
    let q = 1;
    let name = Type(TypeNode::Path(path(&["Name"], PathArguments::Empty)));
    let invoke = Invoke {
        function: Function { parent: None, sig: Signature { generics: None, inputs: vec![name] } },
        args: vec![param(p)],
    };
    let imp = CompleteImpl {
        trait_ty: None,
        ty: structure(
            vec![GenericParam::Type(TypeParamRef(p)), GenericParam::Type(TypeParamRef(q))],
            vec![constraint(param(p), "Debug"), constraint(param(q), "Clone")],
        ),
        functions: vec![CompleteFunction { invokes: vec![invoke] }],
    };
    let bounds = imp.compute_trait_bounds().unwrap();
    assert_eq!(collected(&bounds), vec![constraint(param(q), "Clone")]);
}

#[test]
fn bound_on_a_parameter_that_meets_a_placeholder_stays() {
    // P meets a type that is yet to be found out: the set of both resolves
    // to P, and the bound on P stays.
    let p = 0;
    let invoke = Invoke {
        function: Function {
            parent: None,
            sig: Signature { generics: None, inputs: vec![Type(TypeNode::Infer)] },
        },
        args: vec![param(p)],
    };
    let imp = CompleteImpl {
        trait_ty: None,
        ty: structure(
            vec![GenericParam::Type(TypeParamRef(p))],
            vec![constraint(param(p), "Debug")],
        ),
        functions: vec![CompleteFunction { invokes: vec![invoke] }],
    };
    let bounds = imp.compute_trait_bounds().unwrap();
    assert_eq!(collected(&bounds), vec![constraint(param(p), "Debug")]);
}
