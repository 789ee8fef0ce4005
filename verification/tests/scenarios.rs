use bound_inference::data::{Accessor, Data, Field};
use bound_inference::equality_sets::{ConstraintSet, TypeEqualitySets};
use bound_inference::error::InferenceError;
use bound_inference::generics::{
    GenericArgument, GenericConstraint, Generics, PredicateType, TraitBound, TypeParamBound,
};
use bound_inference::ident::{GenericParam, Ident, TypeParamRef};
use bound_inference::path::{
    AngleBracketedGenericArguments, Path, PathArguments, PathSegment,
};
use bound_inference::trait_inference::{
    CompleteFunction, CompleteImpl, Function, Invoke, Parent, Signature,
};
use bound_inference::ty::{Type, TypeNode};

fn param(id: usize) -> Type {
    Type(TypeNode::TypeParam(TypeParamRef(id)))
}

fn simple_path(name: &str) -> Path {
    Path {
        global: false,
        path: vec![PathSegment { ident: Ident::new(name), args: PathArguments::Empty }],
    }
}

fn generic_path(name: &str, argument: Type) -> Path {
    Path {
        global: false,
        path: vec![PathSegment {
            ident: Ident::new(name),
            args: PathArguments::AngleBracketed(AngleBracketedGenericArguments {
                args: vec![GenericArgument::Type(argument)],
            }),
        }],
    }
}

fn trait_bound(name: &str) -> TypeParamBound {
    TypeParamBound::Trait(TraitBound { lifetimes: Vec::new(), path: simple_path(name) })
}

fn constraint(ty: Type, name: &str) -> GenericConstraint {
    GenericConstraint::Type(PredicateType {
        lifetimes: Vec::new(),
        bounded_ty: ty,
        bounds: vec![trait_bound(name)],
    })
}

fn structure(name: &str, params: Vec<usize>, constraints: Vec<GenericConstraint>, fields: Vec<Type>) -> Type {
    Type(TypeNode::DataStructure {
        name: Ident::new(name),
        generics: Generics {
            params: params.into_iter().map(|id| GenericParam::Type(TypeParamRef(id))).collect(),
            constraints,
        },
        data: Data {
            fields: fields
                .into_iter()
                .enumerate()
                .map(|(index, element)| Field { accessor: Accessor::Index(index), element })
                .collect(),
        },
    })
}

fn call(inputs: Vec<Type>, args: Vec<Type>, generics: Option<Generics>) -> Invoke {
    Invoke { function: Function { parent: None, sig: Signature { generics, inputs } }, args }
}

fn implementation(ty: Type, invokes: Vec<Invoke>) -> CompleteImpl {
    CompleteImpl { trait_ty: None, ty, functions: vec![CompleteFunction { invokes }] }
}

fn collected(set: &ConstraintSet) -> Vec<GenericConstraint> {
    (0..set.len()).map(|index| set.get(index).clone()).collect()
}

#[test]
fn declared_and_required_bounds_are_both_kept() {
    // impl<P: Display> for Holder<P>; a function hands its field of type P
    // to `helper<T: Clone>(value: T)`.
    let p = 0;
    let t = 1;
    let ty = structure("Holder", vec![p], vec![constraint(param(p), "Display")], vec![param(p)]);
    let helper = Generics {
        params: vec![GenericParam::Type(TypeParamRef(t))],
        constraints: vec![constraint(param(t), "Clone")],
    };
    let imp = implementation(ty, vec![call(vec![param(t)], vec![param(p)], Some(helper))]);
    let bounds = imp.compute_trait_bounds().unwrap();
    assert_eq!(
        collected(&bounds),
        vec![constraint(param(p), "Display"), constraint(param(p), "Clone")]
    );
}

#[test]
fn shared_reference_unifies_with_mutable_reference() {
    // `&P` is handed to a place that expects `&mut Q`.
    let p = 0;
    let q = 1;
    let mut sets = TypeEqualitySets::new();
    let mut constraints = ConstraintSet::new();
    let result = sets.insert_as_equal_to(
        param(q).reference_mut(),
        param(p).reference(),
        &mut constraints,
    );
    assert_eq!(result, Ok(()));
    assert_eq!(sets.len(), 1);
    assert!(sets.get_set_ref(&param(p)).is_some());
    assert_eq!(sets.get_set_ref(&param(p)), sets.get_set_ref(&param(q)));
    assert!(!sets.contains_key(&param(p).reference()));
    assert!(!sets.contains_key(&param(q).reference_mut()));
    assert_eq!(constraints.len(), 0);

    // A bound on either parameter comes out as a bound on the parameter
    // that stands for both.
    let ty = structure(
        "Pair",
        vec![p, q],
        vec![constraint(param(p), "Display"), constraint(param(q), "Clone")],
        vec![param(p), param(q)],
    );
    let imp = implementation(
        ty,
        vec![call(vec![param(q).reference_mut()], vec![param(p).reference()], None)],
    );
    let bounds = imp.compute_trait_bounds().unwrap();
    assert_eq!(
        collected(&bounds),
        vec![constraint(param(p), "Display"), constraint(param(p), "Clone")]
    );
}

#[test]
fn parameters_unify_through_path_arguments() {
    // One field of type `Wrapper<_>` is handed once to a place that expects
    // `Wrapper<P>` and once to a place that expects `Wrapper<Q>`.
    let p = 0;
    let q = 1;
    let field = Type(TypeNode::Path(generic_path("Wrapper", Type(TypeNode::Infer))));
    let over_p = Type(TypeNode::Path(generic_path("Wrapper", param(p))));
    let over_q = Type(TypeNode::Path(generic_path("Wrapper", param(q))));
    let mut sets = TypeEqualitySets::new();
    let mut constraints = ConstraintSet::new();
    assert_eq!(sets.insert_as_equal_to(over_p.clone(), field.clone(), &mut constraints), Ok(()));
    assert_eq!(sets.insert_as_equal_to(over_q.clone(), field.clone(), &mut constraints), Ok(()));
    let set_of_p = sets.get_set_ref(&param(p));
    assert!(set_of_p.is_some());
    assert_eq!(set_of_p, sets.get_set_ref(&param(q)));
    assert_eq!(set_of_p, sets.get_set_ref(&Type(TypeNode::Infer)));
    let members = sets.get_set(&param(p)).unwrap();
    assert_eq!(members.len(), 3);
    assert!(members.contains(&param(p)));
    assert!(members.contains(&param(q)));
    assert_eq!(sets.get_set_ref(&over_p), sets.get_set_ref(&field));
    assert_eq!(sets.get_set_ref(&over_q), sets.get_set_ref(&field));
}

#[test]
fn trait_object_gives_a_constraint_and_no_set() {
    // A field of type P is handed to a place that expects `dyn Iterator`.
    let p = 0;
    let expected = Type(TypeNode::TraitObject(vec![trait_bound("Iterator")]));
    let mut sets = TypeEqualitySets::new();
    let mut constraints = ConstraintSet::new();
    assert_eq!(sets.insert_as_equal_to(expected.clone(), param(p), &mut constraints), Ok(()));
    assert_eq!(sets.len(), 0);
    assert!(!sets.contains_key(&param(p)));
    assert!(!sets.contains_key(&expected));
    assert_eq!(collected(&constraints), vec![constraint(param(p), "Iterator")]);

    let ty = structure("Holder", vec![p], Vec::new(), vec![param(p)]);
    let imp = implementation(ty, vec![call(vec![expected], vec![param(p)], None)]);
    let bounds = imp.compute_trait_bounds().unwrap();
    assert!(bounds.contains(&constraint(param(p), "Iterator")));
    assert_eq!(bounds.len(), 1);
}

#[test]
fn tuples_of_different_lengths_do_not_unify() {
    let two = Type::tuple(&[param(0), param(1)]);
    let three = Type::tuple(&[param(0), param(1), param(2)]);
    let mut sets = TypeEqualitySets::new();
    let mut constraints = ConstraintSet::new();
    assert_eq!(
        sets.insert_as_equal_to(two.clone(), three.clone(), &mut constraints),
        Err(InferenceError::ArityMismatch)
    );

    let ty = structure("Holder", vec![0], vec![constraint(param(0), "Display")], vec![param(0)]);
    let imp = implementation(ty, vec![call(vec![two], vec![three], None)]);
    assert_eq!(imp.compute_trait_bounds().err(), Some(InferenceError::ArityMismatch));
}

#[test]
fn parent_constraints_are_copied_once() {
    let p = 0;
    let owner = Parent {
        generics: Some(Generics {
            params: vec![GenericParam::Type(TypeParamRef(p))],
            constraints: vec![constraint(param(p), "Debug"), constraint(param(p), "Debug")],
        }),
    };
    let invoke = Invoke {
        function: Function { parent: Some(owner), sig: Signature { generics: None, inputs: Vec::new() } },
        args: Vec::new(),
    };
    let ty = structure("Holder", vec![p], vec![constraint(param(p), "Debug")], vec![param(p)]);
    let imp = implementation(ty, vec![invoke]);
    let bounds = imp.compute_trait_bounds().unwrap();
    assert_eq!(collected(&bounds), vec![constraint(param(p), "Debug")]);
}
