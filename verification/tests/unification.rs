use bound_inference::equality_sets::{ConstraintSet, TypeEqualitySet, TypeEqualitySetRef, TypeEqualitySets};
use bound_inference::error::InferenceError;
use bound_inference::generics::{
    GenericArgument, GenericConstraint, PredicateType, TraitBound, TypeParamBound,
};
use bound_inference::ident::{Ident, LifetimeRef, TypeParamRef};
use bound_inference::path::{
    AngleBracketedGenericArguments, ParenthesizedGenericArguments, Path, PathArguments,
    PathSegment,
};
use bound_inference::ty::{Type, TypeNode};

fn param(id: usize) -> Type {
    Type(TypeNode::TypeParam(TypeParamRef(id)))
}

fn angle(args: Vec<GenericArgument>) -> PathArguments {
    PathArguments::AngleBracketed(AngleBracketedGenericArguments { args })
}

fn types(args: Vec<Type>) -> PathArguments {
    angle(args.into_iter().map(GenericArgument::Type).collect())
}

fn path(names: &[&str], args: PathArguments) -> Path {
    let mut segments: Vec<PathSegment> = names
        .iter()
        .map(|name| PathSegment { ident: Ident::new(name), args: PathArguments::Empty })
        .collect();
    segments.last_mut().unwrap().args = args;
    Path { global: false, path: segments }
}

fn named(names: &[&str], args: PathArguments) -> Type {
    Type(TypeNode::Path(path(names, args)))
}

fn bound(path: Path) -> TypeParamBound {
    TypeParamBound::Trait(TraitBound { lifetimes: Vec::new(), path })
}

fn object(bounds: Vec<TypeParamBound>) -> Type {
    Type(TypeNode::TraitObject(bounds))
}

fn members(set: &TypeEqualitySet) -> Vec<Type> {
    (0..set.len()).map(|index| set.get(index).clone()).collect()
}

fn collected(set: &ConstraintSet) -> Vec<GenericConstraint> {
    (0..set.len()).map(|index| set.get(index).clone()).collect()
}

fn store() -> (TypeEqualitySets, ConstraintSet) {
    (TypeEqualitySets::new(), ConstraintSet::new())
}

#[test]
fn new_store_is_empty() {
    let (sets, constraints) = store();
    assert_eq!(sets.len(), 0);
    assert!(!sets.contains_key(&param(0)));
    assert_eq!(sets.get_set_ref(&param(0)), None);
    assert!(sets.get_set(&param(0)).is_none());
    assert_eq!(constraints.len(), 0);
    assert!(TypeEqualitySet::new().len() == 0);
}

#[test]
fn set_keeps_each_type_once_in_order() {
    let mut set = TypeEqualitySet::new();
    assert!(set.insert(param(2)));
    assert!(set.insert(param(1)));
    assert!(!set.insert(param(2)));
    assert_eq!(members(&set), vec![param(2), param(1)]);
    assert!(set.contains(&param(1)));
    assert!(!set.contains(&param(3)));
}

#[test]
fn constraint_set_keeps_each_constraint_once_in_order() {
    let constraint = |id: usize, name: &str| {
        GenericConstraint::Type(PredicateType {
            lifetimes: Vec::new(),
            bounded_ty: param(id),
            bounds: vec![bound(path(&[name], PathArguments::Empty))],
        })
    };
    let mut set = ConstraintSet::new();
    assert!(set.insert(constraint(0, "Clone")));
    assert!(set.insert(constraint(1, "Clone")));
    assert!(!set.insert(constraint(0, "Clone")));
    assert!(set.insert(constraint(0, "Debug")));
    assert_eq!(collected(&set), vec![constraint(0, "Clone"), constraint(1, "Clone"), constraint(0, "Debug")]);
    assert!(set.contains(&constraint(1, "Clone")));
    assert!(!set.contains(&constraint(1, "Debug")));
}

#[test]
fn new_set_holds_its_type_alone() {
    let (mut sets, _) = store();
    assert_eq!(sets.new_set(param(4)), TypeEqualitySetRef(0));
    assert_eq!(sets.new_set(param(5)), TypeEqualitySetRef(1));
    assert_eq!(sets.get_set_ref(&param(5)), Some(TypeEqualitySetRef(1)));
    assert_eq!(members(sets.get_set(&param(4)).unwrap()), vec![param(4)]);
    assert_eq!(members(sets.members(TypeEqualitySetRef(1))), vec![param(5)]);
}

#[test]
fn two_unknown_types_get_a_new_set() {
    let (mut sets, mut constraints) = store();
    assert_eq!(sets.insert_as_equal_to(param(0), param(1), &mut constraints), Ok(()));
    assert_eq!(sets.len(), 1);
    assert_eq!(members(sets.get_set(&param(0)).unwrap()), vec![param(1), param(0)]);
    assert_eq!(sets.get_set_ref(&param(1)), Some(TypeEqualitySetRef(0)));
}

#[test]
fn type_equal_to_itself_gets_a_set_of_one() {
    let (mut sets, mut constraints) = store();
    assert_eq!(sets.insert_as_equal_to(param(0), param(0), &mut constraints), Ok(()));
    assert_eq!(members(sets.get_set(&param(0)).unwrap()), vec![param(0)]);
}

#[test]
fn unknown_type_joins_the_set_of_the_known() {
    let (mut sets, mut constraints) = store();
    sets.insert_as_equal_to(param(0), param(1), &mut constraints).unwrap();
    sets.insert_as_equal_to(param(0), param(2), &mut constraints).unwrap();
    sets.insert_as_equal_to(param(3), param(2), &mut constraints).unwrap();
    assert_eq!(sets.len(), 1);
    assert_eq!(
        members(sets.get_set(&param(3)).unwrap()),
        vec![param(1), param(0), param(2), param(3)]
    );
}

#[test]
fn known_types_of_two_sets_are_not_poured_together() {
    let (mut sets, mut constraints) = store();
    sets.insert_as_equal_to(param(0), param(1), &mut constraints).unwrap();
    sets.insert_as_equal_to(param(2), param(3), &mut constraints).unwrap();
    assert_eq!(sets.len(), 2);
    // The second type joins the set of the first, and leaves its old set
    // as it is.
    sets.insert_as_equal_to(param(0), param(2), &mut constraints).unwrap();
    assert_eq!(sets.len(), 2);
    assert_eq!(sets.get_set_ref(&param(2)), Some(TypeEqualitySetRef(0)));
    assert_eq!(sets.get_set_ref(&param(3)), Some(TypeEqualitySetRef(1)));
    assert_eq!(members(sets.members(TypeEqualitySetRef(0))), vec![param(1), param(0), param(2)]);
    assert_eq!(members(sets.members(TypeEqualitySetRef(1))), vec![param(3), param(2)]);
}

#[test]
fn tuples_unify_element_by_element() {
    let (mut sets, mut constraints) = store();
    let first = Type::tuple(&[param(0), param(1)]);
    let second = Type::tuple(&[param(2), param(3)]);
    assert_eq!(sets.insert_as_equal_to(first.clone(), second.clone(), &mut constraints), Ok(()));
    assert_eq!(sets.len(), 3);
    assert_eq!(sets.get_set_ref(&param(0)), sets.get_set_ref(&param(2)));
    assert_eq!(sets.get_set_ref(&param(1)), sets.get_set_ref(&param(3)));
    assert_eq!(sets.get_set_ref(&first), Some(TypeEqualitySetRef(2)));
    assert_eq!(sets.get_set_ref(&first), sets.get_set_ref(&second));
}

#[test]
fn tuples_of_different_lengths_fail_before_anything_is_stored() {
    let (mut sets, mut constraints) = store();
    let first = Type::tuple(&[param(0)]);
    let second = Type::tuple(&[param(0), param(1)]);
    assert_eq!(
        sets.insert_as_equal_to(first.clone(), second, &mut constraints),
        Err(InferenceError::ArityMismatch)
    );
    assert_eq!(sets.len(), 0);
    assert!(!sets.contains_key(&first));
}

#[test]
fn failing_element_fails_the_tuple() {
    let (mut sets, mut constraints) = store();
    let inner_short = Type::tuple(&[param(5)]);
    let inner_long = Type::tuple(&[param(5), param(6)]);
    let first = Type::tuple(&[param(0), inner_short]);
    let second = Type::tuple(&[param(1), inner_long]);
    assert_eq!(
        sets.insert_as_equal_to(first.clone(), second, &mut constraints),
        Err(InferenceError::ArityMismatch)
    );
    // The elements in front of the failing one were unified.
    assert_eq!(sets.len(), 1);
    assert_eq!(sets.get_set_ref(&param(0)), sets.get_set_ref(&param(1)));
    assert!(!sets.contains_key(&first));
}

#[test]
fn references_of_one_kind_unify_with_their_targets() {
    let (mut sets, mut constraints) = store();
    let first = param(0).reference();
    let second = Type(TypeNode::Reference {
        lifetime: Some(LifetimeRef(4)),
        inner: Box::new(TypeNode::TypeParam(TypeParamRef(1))),
    });
    assert_eq!(sets.insert_as_equal_to(first.clone(), second.clone(), &mut constraints), Ok(()));
    assert_eq!(sets.len(), 2);
    assert_eq!(sets.get_set_ref(&param(0)), Some(TypeEqualitySetRef(0)));
    assert_eq!(sets.get_set_ref(&param(1)), Some(TypeEqualitySetRef(0)));
    assert_eq!(sets.get_set_ref(&first), Some(TypeEqualitySetRef(1)));
    assert_eq!(sets.get_set_ref(&second), Some(TypeEqualitySetRef(1)));
}

#[test]
fn references_to_one_type_unify_that_type_with_itself() {
    for (a, b) in vec![
        (param(0).reference(), param(0).reference_mut()),
        (param(0).reference_mut(), param(0).reference()),
    ] {
        let (mut sets, mut constraints) = store();
        assert_eq!(sets.insert_as_equal_to(a, b, &mut constraints), Ok(()));
        let (mut alone, mut none) = store();
        assert_eq!(alone.insert_as_equal_to(param(0), param(0), &mut none), Ok(()));
        assert_eq!(sets.len(), alone.len());
        assert_eq!(members(sets.members(TypeEqualitySetRef(0))), members(alone.members(TypeEqualitySetRef(0))));
    }
    let (mut sets, mut constraints) = store();
    let tuple = Type::tuple(&[param(0), Type::tuple(&[param(1)])]);
    assert_eq!(
        sets.insert_as_equal_to(tuple.reference(), tuple.reference(), &mut constraints),
        Ok(())
    );
    assert!(sets.contains_key(&tuple));
    assert!(sets.contains_key(&tuple.reference()));
}

#[test]
fn paths_unify_their_last_arguments() {
    let (mut sets, mut constraints) = store();
    let first = named(&["a", "Map"], types(vec![param(0), param(1)]));
    let second = named(&["Dict"], types(vec![param(2), param(3)]));
    assert_eq!(sets.insert_as_equal_to(first.clone(), second.clone(), &mut constraints), Ok(()));
    assert_eq!(sets.get_set_ref(&param(0)), sets.get_set_ref(&param(2)));
    assert_eq!(sets.get_set_ref(&param(1)), sets.get_set_ref(&param(3)));
    assert_eq!(sets.get_set_ref(&first), sets.get_set_ref(&second));
    assert_eq!(sets.len(), 3);
}

#[test]
fn paths_with_different_numbers_of_arguments_are_left_alone() {
    let (mut sets, mut constraints) = store();
    let first = named(&["Map"], types(vec![param(0), param(1)]));
    let second = named(&["Set"], types(vec![param(2)]));
    let plain = named(&["Alias"], PathArguments::Empty);
    assert_eq!(sets.insert_as_equal_to(first.clone(), second.clone(), &mut constraints), Ok(()));
    assert_eq!(sets.insert_as_equal_to(first.clone(), plain.clone(), &mut constraints), Ok(()));
    assert_eq!(sets.len(), 1);
    assert!(!sets.contains_key(&param(0)));
    assert!(!sets.contains_key(&param(2)));
    assert_eq!(members(sets.get_set(&first).unwrap()), vec![second, first, plain]);
}

#[test]
fn parenthesized_arguments_do_not_unify() {
    let function = named(
        &["Fn"],
        PathArguments::Parenthesized(ParenthesizedGenericArguments {
            inputs: vec![param(0)],
            output: Some(param(1)),
        }),
    );
    let plain = named(&["Alias"], PathArguments::Empty);
    let (mut sets, mut constraints) = store();
    assert_eq!(
        sets.insert_as_equal_to(function.clone(), plain.clone(), &mut constraints),
        Err(InferenceError::UnsupportedConstruct)
    );
    assert_eq!(
        sets.insert_as_equal_to(plain, function.clone(), &mut constraints),
        Err(InferenceError::UnsupportedConstruct)
    );
    assert_eq!(sets.len(), 0);
}

#[test]
fn lifetime_arguments_do_not_unify() {
    let first = named(&["Ref"], angle(vec![GenericArgument::Lifetime(LifetimeRef(0))]));
    let second = named(&["Ref"], angle(vec![GenericArgument::Lifetime(LifetimeRef(0))]));
    let (mut sets, mut constraints) = store();
    assert_eq!(
        sets.insert_as_equal_to(first, second, &mut constraints),
        Err(InferenceError::UnsupportedConstruct)
    );
}

#[test]
fn path_without_segments_does_not_unify() {
    let (mut sets, mut constraints) = store();
    assert_eq!(
        sets.insert_as_equal_to(
            Type(TypeNode::Path(Path::empty())),
            named(&["Name"], PathArguments::Empty),
            &mut constraints
        ),
        Err(InferenceError::InternalInconsistency)
    );
}

#[test]
fn trait_objects_unify_their_traits() {
    let (mut sets, mut constraints) = store();
    let first = object(vec![
        bound(path(&["From"], types(vec![param(0)]))),
        TypeParamBound::Lifetime(LifetimeRef(0)),
    ]);
    let second = object(vec![
        bound(path(&["From"], types(vec![param(1)]))),
        bound(path(&["Into"], types(vec![param(2)]))),
    ]);
    assert_eq!(sets.insert_as_equal_to(first.clone(), second, &mut constraints), Ok(()));
    assert_eq!(sets.len(), 1);
    assert_eq!(sets.get_set_ref(&param(0)), sets.get_set_ref(&param(1)));
    assert!(!sets.contains_key(&param(2)));
    assert!(!sets.contains_key(&first));
    assert_eq!(constraints.len(), 0);
}

#[test]
fn trait_objects_of_different_lengths_do_not_unify() {
    let (mut sets, mut constraints) = store();
    let first = object(vec![bound(path(&["Debug"], PathArguments::Empty))]);
    let second = object(vec![
        bound(path(&["Debug"], PathArguments::Empty)),
        bound(path(&["Clone"], PathArguments::Empty)),
    ]);
    assert_eq!(
        sets.insert_as_equal_to(first, second, &mut constraints),
        Err(InferenceError::ArityMismatch)
    );
}

#[test]
fn trait_object_on_either_side_gives_a_constraint() {
    let (mut sets, mut constraints) = store();
    let debug = bound(path(&["Debug"], PathArguments::Empty));
    let expected = GenericConstraint::Type(PredicateType {
        lifetimes: Vec::new(),
        bounded_ty: param(0),
        bounds: vec![debug.clone()],
    });
    assert_eq!(
        sets.insert_as_equal_to(param(0), object(vec![debug.clone()]), &mut constraints),
        Ok(())
    );
    assert_eq!(
        sets.insert_as_equal_to(object(vec![debug]), param(0), &mut constraints),
        Ok(())
    );
    assert_eq!(collected(&constraints), vec![expected]);
    assert_eq!(sets.len(), 0);
}

#[test]
fn types_of_different_shapes_share_a_set() {
    let (mut sets, mut constraints) = store();
    let tuple = Type::tuple(&[param(1)]);
    assert_eq!(sets.insert_as_equal_to(param(0), tuple.clone(), &mut constraints), Ok(()));
    assert_eq!(sets.len(), 1);
    assert!(!sets.contains_key(&param(1)));
    assert_eq!(members(sets.get_set(&param(0)).unwrap()), vec![tuple, param(0)]);
}

#[test]
fn inner_types_alone_can_be_unified() {
    let (mut sets, mut constraints) = store();
    let first = Type::tuple(&[param(0)]);
    let second = Type::tuple(&[param(1)]);
    assert_eq!(sets.insert_inner_type_as_equal_to(&first, &second, &mut constraints), Ok(()));
    assert_eq!(sets.len(), 1);
    assert!(!sets.contains_key(&first));
    assert_eq!(sets.get_set_ref(&param(0)), sets.get_set_ref(&param(1)));
    assert_eq!(
        sets.insert_path_arguments_as_equal_to(
            &path(&["A"], types(vec![param(2)])),
            &path(&["B"], types(vec![param(3)])),
            &mut constraints
        ),
        Ok(())
    );
    assert_eq!(sets.get_set_ref(&param(2)), sets.get_set_ref(&param(3)));
    assert_eq!(sets.insert_inner_type_as_equal_to(&param(7), &first, &mut constraints), Ok(()));
    assert!(!sets.contains_key(&param(7)));
}

#[test]
fn every_known_type_is_a_member_of_its_set() {
    let (mut sets, mut constraints) = store();
    sets.insert_as_equal_to(param(0), param(1), &mut constraints).unwrap();
    sets.insert_as_equal_to(param(2), param(3), &mut constraints).unwrap();
    sets.insert_as_equal_to(param(0), param(2), &mut constraints).unwrap();
    let pair = Type::tuple(&[param(4), param(5)]);
    sets.insert_as_equal_to(pair.clone(), Type::tuple(&[param(0), param(3)]), &mut constraints)
        .unwrap();
    sets.insert_as_equal_to(param(6), pair.clone(), &mut constraints).unwrap();
    let known = vec![
        param(0),
        param(1),
        param(2),
        param(3),
        param(4),
        param(5),
        param(6),
        pair,
        Type::tuple(&[param(0), param(3)]),
    ];
    for ty in known {
        assert!(sets.get_set(&ty).unwrap().contains(&ty));
    }
    // The two that were declared equal last are in one set, which holds both.
    let joined = sets.get_set(&param(6)).unwrap();
    assert!(joined.contains(&param(6)));
    assert!(joined.contains(&Type::tuple(&[param(4), param(5)])));
}

#[test]
fn part_that_is_the_other_whole_may_move_it() {
    // The first tuple is an element of the second: it joins the set of its
    // own element, and the second tuple joins the set that the first had.
    let (mut sets, mut constraints) = store();
    let inner = Type::tuple(&[param(0)]);
    let outer = Type::tuple(&[inner.clone()]);
    assert_eq!(sets.new_set(param(0)), TypeEqualitySetRef(0));
    assert_eq!(sets.new_set(inner.clone()), TypeEqualitySetRef(1));
    assert_eq!(sets.insert_as_equal_to(inner.clone(), outer.clone(), &mut constraints), Ok(()));
    assert_eq!(sets.get_set_ref(&inner), Some(TypeEqualitySetRef(0)));
    assert_eq!(sets.get_set_ref(&outer), Some(TypeEqualitySetRef(1)));
    let joined = sets.members(TypeEqualitySetRef(1));
    assert!(joined.contains(&inner));
    assert!(joined.contains(&outer));
    assert!(sets.members(TypeEqualitySetRef(0)).contains(&inner));
}
