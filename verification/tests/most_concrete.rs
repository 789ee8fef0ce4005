use bound_inference::equality_sets::{ConstraintSet, TypeEqualitySetRef, TypeEqualitySets};
use bound_inference::error::InferenceError;
use bound_inference::generics::{GenericArgument, TraitBound, TypeParamBound};
use bound_inference::ident::{Ident, LifetimeRef, TypeParamRef};
use bound_inference::most_concrete::MostConcreteTypeMap;
use bound_inference::path::{
    AngleBracketedGenericArguments, ParenthesizedGenericArguments, Path, PathArguments,
    PathSegment,
};
use bound_inference::ty::{Type, TypeNode};

fn param(id: usize) -> TypeNode {
    TypeNode::TypeParam(TypeParamRef(id))
}

fn segment(name: &str, args: PathArguments) -> PathSegment {
    PathSegment { ident: Ident::new(name), args }
}

fn angle(args: Vec<GenericArgument>) -> PathArguments {
    PathArguments::AngleBracketed(AngleBracketedGenericArguments { args })
}

fn types(args: Vec<TypeNode>) -> PathArguments {
    angle(args.into_iter().map(|ty| GenericArgument::Type(Type(ty))).collect())
}

fn path(global: bool, names: &[&str], args: PathArguments) -> Path {
    let mut segments: Vec<PathSegment> =
        names.iter().map(|name| segment(name, PathArguments::Empty)).collect();
    segments.last_mut().unwrap().args = args;
    Path { global, path: segments }
}

fn shared(lifetime: Option<usize>, inner: TypeNode) -> TypeNode {
    TypeNode::Reference { lifetime: lifetime.map(LifetimeRef), inner: Box::new(inner) }
}

fn unique(lifetime: Option<usize>, inner: TypeNode) -> TypeNode {
    TypeNode::ReferenceMut { lifetime: lifetime.map(LifetimeRef), inner: Box::new(inner) }
}

fn tuple(elements: Vec<TypeNode>) -> TypeNode {
    TypeNode::Tuple(elements.into_iter().map(Type).collect())
}

fn object(name: &str) -> TypeNode {
    TypeNode::TraitObject(vec![TypeParamBound::Trait(TraitBound {
        lifetimes: Vec::new(),
        path: path(false, &[name], PathArguments::Empty),
    })])
}

fn merge(a: TypeNode, b: TypeNode) -> Result<TypeNode, InferenceError> {
    let sets = TypeEqualitySets::new();
    let mut memo = MostConcreteTypeMap::new();
    TypeNode::make_most_concrete_from_pair(a, b, &mut memo, &sets)
}

fn unified(pairs: Vec<(TypeNode, TypeNode)>) -> TypeEqualitySets {
    let mut sets = TypeEqualitySets::new();
    let mut constraints = ConstraintSet::new();
    for (a, b) in pairs {
        sets.insert_as_equal_to(Type(a), Type(b), &mut constraints).unwrap();
    }
    sets
}

#[test]
fn placeholder_gives_way() {
    assert_eq!(merge(TypeNode::Infer, param(3)), Ok(param(3)));
    assert_eq!(merge(param(3), TypeNode::Infer), Ok(param(3)));
    assert_eq!(merge(TypeNode::Infer, TypeNode::Infer), Ok(TypeNode::Infer));
}

#[test]
fn str_wins_over_anything() {
    assert_eq!(merge(TypeNode::PrimitiveStr, param(0)), Ok(TypeNode::PrimitiveStr));
    assert_eq!(merge(tuple(vec![param(0)]), TypeNode::PrimitiveStr), Ok(TypeNode::PrimitiveStr));
    let name = TypeNode::Path(path(false, &["String"], PathArguments::Empty));
    assert_eq!(merge(TypeNode::PrimitiveStr, name), Ok(TypeNode::PrimitiveStr));
}

#[test]
fn path_wins_over_what_is_no_path() {
    let name = TypeNode::Path(path(false, &["Name"], PathArguments::Empty));
    assert_eq!(merge(name.clone(), param(0)), Ok(name.clone()));
    assert_eq!(merge(tuple(vec![param(0)]), name.clone()), Ok(name.clone()));
    assert_eq!(merge(object("Debug"), name.clone()), Ok(name));
}

#[test]
fn path_without_arguments_wins() {
    let alias = path(false, &["a", "Alias"], PathArguments::Empty);
    let full = path(true, &["Full"], types(vec![param(0)]));
    assert_eq!(merge(TypeNode::Path(alias.clone()), TypeNode::Path(full.clone())), Ok(TypeNode::Path(alias.clone())));
    assert_eq!(merge(TypeNode::Path(full), TypeNode::Path(alias.clone())), Ok(TypeNode::Path(alias)));
    let first = path(false, &["First"], PathArguments::Empty);
    let second = path(false, &["Second"], PathArguments::Empty);
    assert_eq!(merge(TypeNode::Path(first.clone()), TypeNode::Path(second)), Ok(TypeNode::Path(first)));
}

#[test]
fn path_with_fewer_arguments_wins() {
    let one = path(false, &["One"], types(vec![param(0)]));
    let two = path(false, &["Two"], types(vec![param(1), param(2)]));
    assert_eq!(merge(TypeNode::Path(one.clone()), TypeNode::Path(two.clone())), Ok(TypeNode::Path(one.clone())));
    assert_eq!(merge(TypeNode::Path(two), TypeNode::Path(one.clone())), Ok(TypeNode::Path(one)));
}

#[test]
fn paths_with_as_many_arguments_are_merged() {
    let first = path(false, &["a", "b", "Map"], types(vec![param(4), TypeNode::Infer]));
    let second = path(false, &["Map"], types(vec![param(2), TypeNode::PrimitiveStr]));
    let merged = types(vec![param(2), TypeNode::PrimitiveStr]);
    // Neither is global: the merged arguments go to the second path, unless
    // the first has fewer segments.
    assert_eq!(
        merge(TypeNode::Path(first.clone()), TypeNode::Path(second.clone())),
        Ok(TypeNode::Path(path(false, &["Map"], merged.clone())))
    );
    assert_eq!(
        merge(TypeNode::Path(second.clone()), TypeNode::Path(first.clone())),
        Ok(TypeNode::Path(path(false, &["Map"], merged.clone())))
    );
    // A global first path takes them, however long it is.
    let global = path(true, &["a", "b", "Map"], types(vec![param(4), TypeNode::Infer]));
    assert_eq!(
        merge(TypeNode::Path(global), TypeNode::Path(second.clone())),
        Ok(TypeNode::Path(path(true, &["a", "b", "Map"], merged.clone())))
    );
    // Of two paths of one length the second takes them.
    let other = path(false, &["Dict"], types(vec![param(4), TypeNode::Infer]));
    assert_eq!(
        merge(TypeNode::Path(other.clone()), TypeNode::Path(second.clone())),
        Ok(TypeNode::Path(path(false, &["Map"], merged.clone())))
    );
    // A global second path takes them from a first path that is not
    // global, also where the first is shorter.
    let far = path(true, &["a", "Map"], types(vec![param(2), TypeNode::PrimitiveStr]));
    assert_eq!(
        merge(TypeNode::Path(other), TypeNode::Path(far.clone())),
        Ok(TypeNode::Path(path(true, &["a", "Map"], merged.clone())))
    );
    // Of two global paths the first takes them.
    let near = path(true, &["Dict"], types(vec![param(4), TypeNode::Infer]));
    assert_eq!(
        merge(TypeNode::Path(far.clone()), TypeNode::Path(near.clone())),
        Ok(TypeNode::Path(path(true, &["a", "Map"], merged.clone())))
    );
    assert_eq!(
        merge(TypeNode::Path(near), TypeNode::Path(far)),
        Ok(TypeNode::Path(path(true, &["Dict"], merged)))
    );
}

#[test]
fn lifetime_arguments_keep_the_first() {
    let first = path(
        false,
        &["Ref"],
        angle(vec![GenericArgument::Lifetime(LifetimeRef(7)), GenericArgument::Type(Type(param(1)))]),
    );
    let second = path(
        false,
        &["Ref"],
        angle(vec![GenericArgument::Lifetime(LifetimeRef(9)), GenericArgument::Type(Type(param(0)))]),
    );
    let merged = path(
        false,
        &["Ref"],
        angle(vec![GenericArgument::Lifetime(LifetimeRef(7)), GenericArgument::Type(Type(param(0)))]),
    );
    assert_eq!(merge(TypeNode::Path(first), TypeNode::Path(second)), Ok(TypeNode::Path(merged)));
}

#[test]
fn lifetime_against_type_is_not_handled() {
    let first = path(false, &["Ref"], angle(vec![GenericArgument::Lifetime(LifetimeRef(7))]));
    let second = path(false, &["Ref"], types(vec![param(0)]));
    assert_eq!(
        merge(TypeNode::Path(first), TypeNode::Path(second)),
        Err(InferenceError::UnsupportedConstruct)
    );
}

#[test]
fn parenthesized_arguments_are_not_handled() {
    let function = path(
        false,
        &["Fn"],
        PathArguments::Parenthesized(ParenthesizedGenericArguments {
            inputs: vec![Type(param(0))],
            output: None,
        }),
    );
    let generic = path(false, &["Fn"], types(vec![param(0)]));
    assert_eq!(
        merge(TypeNode::Path(function.clone()), TypeNode::Path(function.clone())),
        Err(InferenceError::UnsupportedConstruct)
    );
    assert_eq!(
        merge(TypeNode::Path(generic), TypeNode::Path(function)),
        Err(InferenceError::UnsupportedConstruct)
    );
}

#[test]
fn path_without_segments_is_inconsistent() {
    let name = path(false, &["Name"], PathArguments::Empty);
    assert_eq!(
        merge(TypeNode::Path(Path::empty()), TypeNode::Path(name)),
        Err(InferenceError::InternalInconsistency)
    );
}

#[test]
fn tuples_are_merged_element_by_element() {
    assert_eq!(
        merge(
            tuple(vec![param(5), TypeNode::Infer, TypeNode::PrimitiveStr]),
            tuple(vec![param(2), param(8), param(1)])
        ),
        Ok(tuple(vec![param(2), param(8), TypeNode::PrimitiveStr]))
    );
    assert_eq!(merge(tuple(vec![]), tuple(vec![])), Ok(tuple(vec![])));
}

#[test]
fn tuples_of_different_lengths_do_not_merge() {
    assert_eq!(
        merge(tuple(vec![param(0), param(1)]), tuple(vec![param(0), param(1), param(2)])),
        Err(InferenceError::ArityMismatch)
    );
}

#[test]
fn references_are_merged_and_lose_their_lifetime() {
    assert_eq!(
        merge(shared(Some(1), param(4)), shared(Some(2), param(3))),
        Ok(shared(None, param(3)))
    );
    assert_eq!(
        merge(unique(Some(1), param(4)), unique(None, TypeNode::Infer)),
        Ok(unique(None, param(4)))
    );
}

#[test]
fn trait_object_gives_way() {
    assert_eq!(merge(object("Debug"), param(1)), Ok(param(1)));
    assert_eq!(merge(tuple(vec![param(1)]), object("Debug")), Ok(tuple(vec![param(1)])));
    assert_eq!(merge(object("Debug"), object("Clone")), Ok(object("Clone")));
}

#[test]
fn smaller_type_parameter_wins() {
    assert_eq!(merge(param(3), param(7)), Ok(param(3)));
    assert_eq!(merge(param(7), param(3)), Ok(param(3)));
    assert_eq!(merge(param(3), param(3)), Ok(param(3)));
}

#[test]
fn other_pairs_are_inconsistent() {
    assert_eq!(merge(param(0), tuple(vec![])), Err(InferenceError::InternalInconsistency));
    assert_eq!(
        merge(shared(None, param(0)), unique(None, param(0))),
        Err(InferenceError::InternalInconsistency)
    );
    assert_eq!(
        merge(TypeNode::Dereference(Box::new(param(0))), TypeNode::Dereference(Box::new(param(0)))),
        Err(InferenceError::InternalInconsistency)
    );
    assert_eq!(merge(shared(None, param(0)), param(0)), Err(InferenceError::InternalInconsistency));
}

#[test]
fn merging_a_type_with_itself_gives_its_most_concrete_form() {
    let plain = vec![
        TypeNode::PrimitiveStr,
        param(4),
        tuple(vec![param(1), TypeNode::PrimitiveStr]),
        shared(None, param(2)),
        unique(None, tuple(vec![param(0)])),
        TypeNode::Path(path(false, &["a", "Name"], PathArguments::Empty)),
        TypeNode::Path(path(true, &["Vec"], types(vec![param(0)]))),
        TypeNode::Infer,
        object("Debug"),
    ];
    for ty in plain {
        assert_eq!(merge(ty.clone(), ty.clone()), Ok(ty));
    }
    // A lifetime is dropped.
    assert_eq!(
        merge(shared(Some(3), param(2)), shared(Some(3), param(2))),
        Ok(shared(None, param(2)))
    );
    // A placeholder inside gives way to what is noted for its set.
    let sets = unified(vec![(TypeNode::Infer, param(6))]);
    let mut memo = MostConcreteTypeMap::new();
    memo.insert(TypeEqualitySetRef(0), param(6));
    let holder = tuple(vec![TypeNode::Infer, param(9)]);
    assert_eq!(
        TypeNode::make_most_concrete_from_pair(holder.clone(), holder, &mut memo, &sets),
        Ok(tuple(vec![param(6), param(9)]))
    );
}

#[test]
fn type_in_no_set_stands_for_itself() {
    let sets = unified(vec![(param(0), param(1))]);
    let mut memo = MostConcreteTypeMap::new();
    assert_eq!(param(5).make_most_concrete(&mut memo, &sets), Ok(param(5)));
    assert_eq!(memo.get(TypeEqualitySetRef(0)), None);
}

#[test]
fn set_resolves_to_the_merge_of_its_members() {
    let sets = unified(vec![(param(4), param(2)), (param(4), param(7)), (param(9), param(7))]);
    assert_eq!(sets.len(), 1);
    let mut memo = MostConcreteTypeMap::new();
    assert_eq!(TypeEqualitySetRef(0).make_most_concrete(&mut memo, &sets), Ok(param(2)));
    assert_eq!(memo.get(TypeEqualitySetRef(0)), Some(param(2)));
    assert_eq!(param(9).make_most_concrete(&mut memo, &sets), Ok(param(2)));
}

#[test]
fn noted_type_is_returned_as_it_is() {
    let sets = unified(vec![(param(4), param(2))]);
    let mut memo = MostConcreteTypeMap::new();
    memo.insert(TypeEqualitySetRef(0), TypeNode::PrimitiveStr);
    assert_eq!(param(4).make_most_concrete(&mut memo, &sets), Ok(TypeNode::PrimitiveStr));
    assert_eq!(TypeEqualitySetRef(0).make_most_concrete(&mut memo, &sets), Ok(TypeNode::PrimitiveStr));
}

#[test]
fn set_that_depends_on_itself_reaches_its_first_concrete_type() {
    // The set holds a parameter and a path; the path wins and is resolved,
    // finds only the placeholder of its own set, and stands for itself.
    let name = TypeNode::Path(path(false, &["Name"], PathArguments::Empty));
    let sets = unified(vec![(name.clone(), param(1))]);
    let mut memo = MostConcreteTypeMap::new();
    assert_eq!(param(1).make_most_concrete(&mut memo, &sets), Ok(name.clone()));
    assert_eq!(memo.get(TypeEqualitySetRef(0)), Some(name));
}

#[test]
fn placeholder_in_a_set_gives_way_to_the_other_member() {
    for (first, second) in vec![(TypeNode::Infer, param(6)), (param(6), TypeNode::Infer)] {
        let sets = unified(vec![(first, second)]);
        let mut memo = MostConcreteTypeMap::new();
        assert_eq!(TypeEqualitySetRef(0).make_most_concrete(&mut memo, &sets), Ok(param(6)));
        assert_eq!(memo.get(TypeEqualitySetRef(0)), Some(param(6)));
        assert_eq!(TypeNode::Infer.make_most_concrete(&mut memo, &sets), Ok(param(6)));
    }
}

#[test]
fn type_of_a_set_that_is_being_merged_stands_for_itself() {
    let sets = unified(vec![(param(4), param(2))]);
    let mut memo = MostConcreteTypeMap::new();
    assert!(!memo.is_seeded(TypeEqualitySetRef(0)));
    memo.insert(TypeEqualitySetRef(0), TypeNode::Infer);
    assert!(memo.is_seeded(TypeEqualitySetRef(0)));
    assert_eq!(param(4).make_most_concrete(&mut memo, &sets), Ok(param(4)));
    assert_eq!(param(2).make_most_concrete(&mut memo, &sets), Ok(param(2)));
    assert_eq!(memo.get(TypeEqualitySetRef(0)), Some(TypeNode::Infer));
    memo.insert(TypeEqualitySetRef(0), param(2));
    assert!(!memo.is_seeded(TypeEqualitySetRef(0)));
    assert_eq!(param(4).make_most_concrete(&mut memo, &sets), Ok(param(2)));
}

#[test]
fn set_that_the_store_lacks_is_inconsistent() {
    let sets = TypeEqualitySets::new();
    let mut memo = MostConcreteTypeMap::new();
    assert_eq!(
        TypeEqualitySetRef(3).make_most_concrete(&mut memo, &sets),
        Err(InferenceError::InternalInconsistency)
    );
    assert_eq!(memo.get(TypeEqualitySetRef(3)), None);
}

#[test]
fn failed_merge_leaves_the_placeholder() {
    let sets = unified(vec![(param(1), shared(None, param(0)))]);
    let mut memo = MostConcreteTypeMap::new();
    assert_eq!(
        param(1).make_most_concrete(&mut memo, &sets),
        Err(InferenceError::InternalInconsistency)
    );
    assert_eq!(memo.get(TypeEqualitySetRef(0)), Some(TypeNode::Infer));
}
