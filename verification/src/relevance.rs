//! Which types and constraints concern the generic parameters of the
//! implementation that is analysed.

use crate::equality_sets::{SetsView, TypeEqualitySetRef, TypeEqualitySets};
use crate::error::InferenceError;
use crate::generics::{
    arguments_view, bounds_view, ArgumentView, BoundView, ConstraintView, GenericArgument,
    GenericConstraint, PredicateType, TraitBound, TypeParamBound,
};
use crate::most_concrete::{
    extends, most_concrete, replace_arguments, with_arguments, MostConcreteTypeMap, Resolved,
};
use crate::path::{ArgumentsView, Path, PathArguments, PathView};
use crate::ty::{Type, TypeNode, TypeView};
use std::collections::BTreeSet;
use vstd::prelude::*;

verus! {

/// A set of equality sets of one store, such as the relevant ones: those
/// that hold a generic parameter of the implementation, or a parameter that
/// one of those stands for.
#[derive(Debug)]
pub struct SetRefs {
    refs: BTreeSet<usize>,
}

impl SetRefs {
    pub closed spec fn view(&self) -> Set<int> {
        Set::new(|k: int| 0 <= k <= usize::MAX && self.refs@.contains(k as usize))
    }

    pub fn new() -> (res: Self)
        ensures
            res@ == Set::<int>::empty(),
    {
        let res = SetRefs { refs: BTreeSet::new() };
        assert(res@ =~= Set::<int>::empty());
        res
    }

    pub fn contains(&self, set_ref: TypeEqualitySetRef) -> (res: bool)
        ensures
            res == self@.contains(set_ref.0 as int),
    {
        self.refs.contains(&set_ref.0)
    }

    /// Adds a set; says whether it was new.
    pub fn insert(&mut self, set_ref: TypeEqualitySetRef) -> (res: bool)
        ensures
            res == !old(self)@.contains(set_ref.0 as int),
            final(self)@ == old(self)@.insert(set_ref.0 as int),
    {
        let res = self.refs.insert(set_ref.0);
        assert(self@ =~= old(self)@.insert(set_ref.0 as int));
        res
    }
}

/// Whether a type is a type parameter whose set is relevant, or a reference
/// to a relevant type.
pub open spec fn type_is_relevant(sets: SetsView, relevant: Set<int>, ty: TypeView) -> bool
    decreases ty,
{
    if ty is TypeParam {
        match sets.get_set_ref(ty) {
            Some(set_ref) => relevant.contains(set_ref),
            None => false,
        }
    } else if ty is Reference {
        type_is_relevant(sets, relevant, *ty->Reference_inner)
    } else if ty is ReferenceMut {
        type_is_relevant(sets, relevant, *ty->ReferenceMut_inner)
    } else {
        false
    }
}

/// Whether every type among some generic arguments is relevant. Lifetimes
/// always are.
pub open spec fn arguments_are_relevant(
    sets: SetsView,
    relevant: Set<int>,
    arguments: Seq<ArgumentView>,
) -> bool {
    forall|i: int|
        0 <= i < arguments.len() && (#[trigger] arguments[i]) is Type ==> type_is_relevant(
            sets,
            relevant,
            arguments[i]->Type_0,
        )
}

/// Whether a path is relevant: whether every type among the generic
/// arguments of its last segment is.
pub open spec fn path_is_relevant(sets: SetsView, relevant: Set<int>, path: PathView) -> Result<
    bool,
    InferenceError,
> {
    if path.segments.len() == 0 {
        Err(InferenceError::InternalInconsistency)
    } else {
        match path.segments.last().args {
            ArgumentsView::Empty => Ok(true),
            ArgumentsView::AngleBracketed(arguments) => Ok(
                arguments_are_relevant(sets, relevant, arguments),
            ),
            ArgumentsView::Parenthesized { .. } => Err(InferenceError::UnsupportedConstruct),
        }
    }
}

/// Whether a bound is relevant: a trait is where its path is, a lifetime
/// always.
pub open spec fn bound_is_relevant(sets: SetsView, relevant: Set<int>, bound: BoundView) -> Result<
    bool,
    InferenceError,
> {
    match bound {
        BoundView::Trait { path, .. } => path_is_relevant(sets, relevant, path),
        BoundView::Lifetime(_) => Ok(true),
    }
}

/// Whether the bounds from place `i` on are all relevant. The first bound
/// that is not relevant, or cannot be judged, decides.
pub open spec fn bounds_are_relevant(
    sets: SetsView,
    relevant: Set<int>,
    bounds: Seq<BoundView>,
    i: int,
) -> Result<bool, InferenceError>
    decreases bounds.len() - i,
{
    if i < 0 || i >= bounds.len() {
        Ok(true)
    } else {
        match bound_is_relevant(sets, relevant, bounds[i]) {
            Ok(true) => bounds_are_relevant(sets, relevant, bounds, i + 1),
            other => other,
        }
    }
}

/// Whether a type predicate is relevant: whether the type that it bounds
/// and all of its bounds are.
pub open spec fn predicate_is_relevant(
    sets: SetsView,
    relevant: Set<int>,
    bounded_ty: TypeView,
    bounds: Seq<BoundView>,
) -> Result<bool, InferenceError> {
    if type_is_relevant(sets, relevant, bounded_ty) {
        bounds_are_relevant(sets, relevant, bounds, 0)
    } else {
        Ok(false)
    }
}

impl TypeNode {
    /// Whether this is a type parameter whose set is relevant, or a
    /// reference to a relevant type.
    pub fn is_relevant(
        &self,
        type_equality_sets: &TypeEqualitySets,
        relevant_generic_params: &SetRefs,
    ) -> (res: bool)
        ensures
            res == type_is_relevant(type_equality_sets@, relevant_generic_params@, self@),
        decreases self,
    {
        match self {
            TypeNode::TypeParam(type_param_ref) => {
                match type_equality_sets.get_set_ref(&Type(TypeNode::TypeParam(*type_param_ref))) {
                    Some(set_ref) => relevant_generic_params.contains(set_ref),
                    None => false,
                }
            },
            TypeNode::Reference { inner, .. } => inner.is_relevant(
                type_equality_sets,
                relevant_generic_params,
            ),
            TypeNode::ReferenceMut { inner, .. } => inner.is_relevant(
                type_equality_sets,
                relevant_generic_params,
            ),
            _ => false,
        }
    }
}

/// Whether every type among some generic arguments is relevant.
fn arguments_relevant(
    arguments: &Vec<GenericArgument>,
    type_equality_sets: &TypeEqualitySets,
    relevant_generic_params: &SetRefs,
) -> (res: bool)
    ensures
        res == arguments_are_relevant(
            type_equality_sets@,
            relevant_generic_params@,
            arguments_view(arguments@),
        ),
{
    let ghost views = arguments_view(arguments@);
    let mut i: usize = 0;
    while i < arguments.len()
        invariant
            i <= arguments.len(),
            views == arguments_view(arguments@),
            forall|j: int|
                0 <= j < i && (#[trigger] views[j]) is Type ==> type_is_relevant(
                    type_equality_sets@,
                    relevant_generic_params@,
                    views[j]->Type_0,
                ),
        decreases arguments.len() - i,
    {
        assert(views[i as int] == arguments@[i as int]@);
        match &arguments[i] {
            GenericArgument::Type(ty) => {
                if !ty.0.is_relevant(type_equality_sets, relevant_generic_params) {
                    return false;
                }
            },
            GenericArgument::Lifetime(_) => {},
        }
        i += 1;
    }
    true
}

impl Path {
    /// Whether every type among the generic arguments of the last segment
    /// is relevant.
    pub fn is_relevant(
        &self,
        type_equality_sets: &TypeEqualitySets,
        relevant_generic_params: &SetRefs,
    ) -> (res: Result<bool, InferenceError>)
        ensures
            res == path_is_relevant(type_equality_sets@, relevant_generic_params@, self@),
    {
        if self.path.len() == 0 {
            return Err(InferenceError::InternalInconsistency);
        }
        let segment = &self.path[self.path.len() - 1];
        assert(self@.segments.last() == segment@);
        match &segment.args {
            PathArguments::Empty => Ok(true),
            PathArguments::AngleBracketed(args) => Ok(
                arguments_relevant(&args.args, type_equality_sets, relevant_generic_params),
            ),
            PathArguments::Parenthesized(_) => Err(InferenceError::UnsupportedConstruct),
        }
    }
}

impl TypeParamBound {
    /// Whether this is a lifetime, or a trait whose path is relevant.
    pub fn is_relevant(
        &self,
        type_equality_sets: &TypeEqualitySets,
        relevant_generic_params: &SetRefs,
    ) -> (res: Result<bool, InferenceError>)
        ensures
            res == bound_is_relevant(type_equality_sets@, relevant_generic_params@, self@),
    {
        match self {
            TypeParamBound::Trait(bound) => bound.path.is_relevant(
                type_equality_sets,
                relevant_generic_params,
            ),
            TypeParamBound::Lifetime(_) => Ok(true),
        }
    }
}

impl PredicateType {
    /// Whether the bounded type and all of the bounds are relevant.
    #[verifier::loop_isolation(false)]
    pub fn is_relevant(
        &self,
        type_equality_sets: &TypeEqualitySets,
        relevant_generic_params: &SetRefs,
    ) -> (res: Result<bool, InferenceError>)
        ensures
            res == predicate_is_relevant(
                type_equality_sets@,
                relevant_generic_params@,
                self.bounded_ty@,
                bounds_view(self.bounds@),
            ),
    {
        if !self.bounded_ty.0.is_relevant(type_equality_sets, relevant_generic_params) {
            return Ok(false);
        }
        let ghost views = bounds_view(self.bounds@);
        let ghost goal = bounds_are_relevant(
            type_equality_sets@,
            relevant_generic_params@,
            views,
            0,
        );
        let mut i: usize = 0;
        while i < self.bounds.len()
            invariant
                i <= self.bounds.len(),
                views == bounds_view(self.bounds@),
                bounds_are_relevant(
                    type_equality_sets@,
                    relevant_generic_params@,
                    views,
                    i as int,
                ) == goal,
            decreases self.bounds.len() - i,
        {
            assert(views[i as int] == self.bounds@[i as int]@);
            let judged = self.bounds[i].is_relevant(type_equality_sets, relevant_generic_params);
            assert(judged == bound_is_relevant(
                type_equality_sets@,
                relevant_generic_params@,
                views[i as int],
            ));
            match judged {
                Ok(true) => {},
                other => {
                    assert(bounds_are_relevant(
                        type_equality_sets@,
                        relevant_generic_params@,
                        views,
                        i as int,
                    ) == other);
                    return other;
                },
            }
            i += 1;
        }
        Ok(true)
    }
}

/// The type that `ty` stands for, if that type is relevant.
pub open spec fn most_relevant_type(
    sets: SetsView,
    relevant: Set<int>,
    memo: Map<int, TypeView>,
    ty: TypeView,
) -> Resolved<Option<TypeView>> {
    let found = most_concrete(sets, memo, ty);
    Resolved {
        memo: found.memo,
        outcome: match found.outcome {
            Ok(node) => Ok(
                if type_is_relevant(sets, relevant, node) {
                    Some(node)
                } else {
                    None
                },
            ),
            Err(error) => Err(error),
        },
    }
}

/// The generic arguments from place `i` on, each type among them replaced
/// by the type that it stands for, behind those that were done before.
pub open spec fn most_concrete_arguments(
    sets: SetsView,
    memo: Map<int, TypeView>,
    arguments: Seq<ArgumentView>,
    i: int,
    done: Seq<ArgumentView>,
) -> Resolved<Seq<ArgumentView>>
    decreases arguments.len() - i,
{
    if i < 0 || i >= arguments.len() {
        Resolved { memo, outcome: Ok(done) }
    } else if arguments[i] is Type {
        let step = most_concrete(sets, memo, arguments[i]->Type_0);
        match step.outcome {
            Ok(ty) => most_concrete_arguments(
                sets,
                step.memo,
                arguments,
                i + 1,
                done.push(ArgumentView::Type(ty)),
            ),
            Err(error) => Resolved { memo: step.memo, outcome: Err(error) },
        }
    } else {
        most_concrete_arguments(sets, memo, arguments, i + 1, done.push(arguments[i]))
    }
}

/// A path with the types among the generic arguments of its last segment
/// replaced by the types that they stand for, if the path is then relevant.
pub open spec fn most_relevant_path(
    sets: SetsView,
    relevant: Set<int>,
    memo: Map<int, TypeView>,
    path: PathView,
) -> Resolved<Option<PathView>> {
    if path.segments.len() == 0 {
        Resolved { memo, outcome: Err(InferenceError::InternalInconsistency) }
    } else {
        match path.segments.last().args {
            ArgumentsView::Empty => Resolved { memo, outcome: Ok(Some(path)) },
            ArgumentsView::AngleBracketed(arguments) => {
                let found = most_concrete_arguments(sets, memo, arguments, 0, Seq::empty());
                Resolved {
                    memo: found.memo,
                    outcome: match found.outcome {
                        Ok(resolved) => Ok(
                            if arguments_are_relevant(sets, relevant, resolved) {
                                Some(with_arguments(path, resolved))
                            } else {
                                None
                            },
                        ),
                        Err(error) => Err(error),
                    },
                }
            },
            ArgumentsView::Parenthesized { .. } => Resolved {
                memo,
                outcome: Err(InferenceError::UnsupportedConstruct),
            },
        }
    }
}

/// A bound in its most concrete form, if it is relevant. A lifetime is kept
/// as it is.
pub open spec fn most_relevant_bound(
    sets: SetsView,
    relevant: Set<int>,
    memo: Map<int, TypeView>,
    bound: BoundView,
) -> Resolved<Option<BoundView>> {
    match bound {
        BoundView::Trait { lifetimes, path } => {
            let found = most_relevant_path(sets, relevant, memo, path);
            Resolved {
                memo: found.memo,
                outcome: match found.outcome {
                    Ok(Some(resolved)) => Ok(Some(BoundView::Trait { lifetimes, path: resolved })),
                    Ok(None) => Ok(None),
                    Err(error) => Err(error),
                },
            }
        },
        BoundView::Lifetime(_) => Resolved { memo, outcome: Ok(Some(bound)) },
    }
}

/// The bounds from place `i` on, each in its most concrete form or dropped,
/// behind those that were done before. Every bound is resolved, also behind
/// one that was dropped.
pub open spec fn most_relevant_bounds(
    sets: SetsView,
    relevant: Set<int>,
    memo: Map<int, TypeView>,
    bounds: Seq<BoundView>,
    i: int,
    done: Seq<Option<BoundView>>,
) -> Resolved<Seq<Option<BoundView>>>
    decreases bounds.len() - i,
{
    if i < 0 || i >= bounds.len() {
        Resolved { memo, outcome: Ok(done) }
    } else {
        let step = most_relevant_bound(sets, relevant, memo, bounds[i]);
        match step.outcome {
            Ok(bound) => most_relevant_bounds(sets, relevant, step.memo, bounds, i + 1, done.push(bound)),
            Err(error) => Resolved { memo: step.memo, outcome: Err(error) },
        }
    }
}

/// The values of a sequence, if none of them is missing.
pub open spec fn all_present<T>(items: Seq<Option<T>>) -> Option<Seq<T>> {
    if forall|i: int| 0 <= i < items.len() ==> (#[trigger] items[i]) is Some {
        Some(Seq::new(items.len(), |i: int| items[i]->Some_0))
    } else {
        None
    }
}

/// A type predicate in its most concrete form, if the type that it bounds
/// and all of its bounds are relevant. The bounds are not looked at where
/// the bounded type is not relevant.
pub open spec fn most_relevant_predicate(
    sets: SetsView,
    relevant: Set<int>,
    memo: Map<int, TypeView>,
    lifetimes: Seq<crate::ident::LifetimeRef>,
    bounded_ty: TypeView,
    bounds: Seq<BoundView>,
) -> Resolved<Option<ConstraintView>> {
    let bounded = most_relevant_type(sets, relevant, memo, bounded_ty);
    match bounded.outcome {
        Ok(Some(ty)) => {
            let found = most_relevant_bounds(sets, relevant, bounded.memo, bounds, 0, Seq::empty());
            Resolved {
                memo: found.memo,
                outcome: match found.outcome {
                    Ok(items) => Ok(
                        match all_present(items) {
                            Some(resolved) => Some(
                                ConstraintView::Type { lifetimes, bounded_ty: ty, bounds: resolved },
                            ),
                            None => None,
                        },
                    ),
                    Err(error) => Err(error),
                },
            }
        },
        Ok(None) => Resolved { memo: bounded.memo, outcome: Ok(None) },
        Err(error) => Resolved { memo: bounded.memo, outcome: Err(error) },
    }
}

/// A constraint in its most concrete form, if it is relevant. A lifetime
/// predicate is kept as it is.
pub open spec fn most_relevant_constraint(
    sets: SetsView,
    relevant: Set<int>,
    memo: Map<int, TypeView>,
    constraint: ConstraintView,
) -> Resolved<Option<ConstraintView>> {
    match constraint {
        ConstraintView::Type { lifetimes, bounded_ty, bounds } => most_relevant_predicate(
            sets,
            relevant,
            memo,
            lifetimes,
            bounded_ty,
            bounds,
        ),
        ConstraintView::Lifetime { .. } => Resolved { memo, outcome: Ok(Some(constraint)) },
    }
}

/// Transforms a list of optional values of which none is missing into the
/// list of those values. If any of the items is missing, so is the result.
#[verifier::loop_isolation(false)]
pub fn iter_option_to_option_vec<T>(items: Vec<Option<T>>) -> (res: Option<Vec<T>>)
    ensures
        match res {
            Some(vec) => all_present(items@) == Some(vec@),
            None => all_present(items@) is None,
        },
{
    let mut items = items;
    let ghost all = items@;
    let mut reversed: Vec<T> = Vec::new();
    while items.len() > 0
        invariant
            items@.len() <= all.len(),
            forall|j: int| 0 <= j < items@.len() ==> items@[j] == all[j],
            reversed@.len() == all.len() - items@.len(),
            forall|j: int|
                0 <= j < reversed@.len() ==> all[all.len() - 1 - j] == Some(#[trigger] reversed@[j]),
        decreases items.len(),
    {
        match items.pop() {
            Some(Some(value)) => {
                reversed.push(value);
            },
            _ => {
                assert(all[items@.len() as int] is None);
                return None;
            },
        }
    }
    let mut vec: Vec<T> = Vec::new();
    while reversed.len() > 0
        invariant
            vec@.len() + reversed@.len() == all.len(),
            forall|j: int|
                #![trigger vec@[j]]
                #![trigger all[j]]
                0 <= j < vec@.len() ==> all[j] == Some(vec@[j]),
            forall|j: int|
                0 <= j < reversed@.len() ==> all[all.len() - 1 - j] == Some(#[trigger] reversed@[j]),
        decreases reversed.len(),
    {
        match reversed.pop() {
            Some(value) => {
                vec.push(value);
            },
            None => {},
        }
    }
    assert(all_present(all)->Some_0 =~= vec@);
    Some(vec)
}

/// Whether a noted map and a result are what looking for a relevant type
/// came to.
pub open spec fn found_type(
    found: Resolved<Option<TypeView>>,
    memo: Map<int, TypeView>,
    res: Result<Option<TypeNode>, InferenceError>,
) -> bool {
    &&& found.memo == memo
    &&& match res {
        Ok(Some(node)) => found.outcome == Ok::<Option<TypeView>, InferenceError>(Some(node@)),
        Ok(None) => found.outcome == Ok::<Option<TypeView>, InferenceError>(None),
        Err(error) => found.outcome == Err::<Option<TypeView>, InferenceError>(error),
    }
}

/// Whether a noted map and a result are what looking for a relevant path
/// came to.
pub open spec fn found_path(
    found: Resolved<Option<PathView>>,
    memo: Map<int, TypeView>,
    res: Result<Option<Path>, InferenceError>,
) -> bool {
    &&& found.memo == memo
    &&& match res {
        Ok(Some(path)) => found.outcome == Ok::<Option<PathView>, InferenceError>(Some(path@)),
        Ok(None) => found.outcome == Ok::<Option<PathView>, InferenceError>(None),
        Err(error) => found.outcome == Err::<Option<PathView>, InferenceError>(error),
    }
}

/// Whether a noted map and a result are what looking for a relevant bound
/// came to.
pub open spec fn found_bound(
    found: Resolved<Option<BoundView>>,
    memo: Map<int, TypeView>,
    res: Result<Option<TypeParamBound>, InferenceError>,
) -> bool {
    &&& found.memo == memo
    &&& match res {
        Ok(Some(bound)) => found.outcome == Ok::<Option<BoundView>, InferenceError>(Some(bound@)),
        Ok(None) => found.outcome == Ok::<Option<BoundView>, InferenceError>(None),
        Err(error) => found.outcome == Err::<Option<BoundView>, InferenceError>(error),
    }
}

/// Whether a noted map and a result are what looking for a relevant type
/// predicate came to.
pub open spec fn found_predicate(
    found: Resolved<Option<ConstraintView>>,
    memo: Map<int, TypeView>,
    res: Result<Option<PredicateType>, InferenceError>,
) -> bool {
    &&& found.memo == memo
    &&& match res {
        Ok(Some(predicate)) => found.outcome == Ok::<Option<ConstraintView>, InferenceError>(
            Some(predicate@),
        ),
        Ok(None) => found.outcome == Ok::<Option<ConstraintView>, InferenceError>(None),
        Err(error) => found.outcome == Err::<Option<ConstraintView>, InferenceError>(error),
    }
}

/// Whether a noted map and a result are what looking for a relevant
/// constraint came to.
pub open spec fn found_constraint(
    found: Resolved<Option<ConstraintView>>,
    memo: Map<int, TypeView>,
    res: Result<Option<GenericConstraint>, InferenceError>,
) -> bool {
    &&& found.memo == memo
    &&& match res {
        Ok(Some(constraint)) => found.outcome == Ok::<Option<ConstraintView>, InferenceError>(
            Some(constraint@),
        ),
        Ok(None) => found.outcome == Ok::<Option<ConstraintView>, InferenceError>(None),
        Err(error) => found.outcome == Err::<Option<ConstraintView>, InferenceError>(error),
    }
}

/// The views of a list of bounds of which some may be missing.
pub open spec fn optional_bounds_view(s: Seq<Option<TypeParamBound>>) -> Seq<Option<BoundView>> {
    Seq::new(
        s.len(),
        |i: int|
            match s[i] {
                Some(bound) => Some(bound@),
                None => None,
            },
    )
}

impl TypeNode {
    /// The type that this one stands for, if that type is relevant.
    pub fn make_most_relevant(
        self,
        most_concrete_type_map: &mut MostConcreteTypeMap,
        type_equality_sets: &TypeEqualitySets,
        relevant_generic_params: &SetRefs,
    ) -> (res: Result<Option<TypeNode>, InferenceError>)
        ensures
            found_type(
                most_relevant_type(
                    type_equality_sets@,
                    relevant_generic_params@,
                    old(most_concrete_type_map)@,
                    self@,
                ),
                final(most_concrete_type_map)@,
                res,
            ),
            extends(old(most_concrete_type_map)@, final(most_concrete_type_map)@),
    {
        match self.make_most_concrete(most_concrete_type_map, type_equality_sets) {
            Ok(node) => {
                if node.is_relevant(type_equality_sets, relevant_generic_params) {
                    Ok(Some(node))
                } else {
                    Ok(None)
                }
            },
            Err(error) => Err(error),
        }
    }
}

impl Path {
    /// The path with the types among the generic arguments of its last
    /// segment replaced by the types that they stand for, if the path is
    /// then relevant.
    #[verifier::loop_isolation(false)]
    pub fn make_most_relevant(
        self,
        most_concrete_type_map: &mut MostConcreteTypeMap,
        type_equality_sets: &TypeEqualitySets,
        relevant_generic_params: &SetRefs,
    ) -> (res: Result<Option<Path>, InferenceError>)
        ensures
            found_path(
                most_relevant_path(
                    type_equality_sets@,
                    relevant_generic_params@,
                    old(most_concrete_type_map)@,
                    self@,
                ),
                final(most_concrete_type_map)@,
                res,
            ),
            extends(old(most_concrete_type_map)@, final(most_concrete_type_map)@),
    {
        if self.path.len() == 0 {
            return Err(InferenceError::InternalInconsistency);
        }
        let ghost sets = type_equality_sets@;
        let ghost start = most_concrete_type_map@;
        assert(self@.segments.last() == self.path@[self.path.len() - 1]@);
        let resolved = match &self.path[self.path.len() - 1].args {
            PathArguments::Empty => {
                return Ok(Some(self));
            },
            PathArguments::Parenthesized(_) => {
                return Err(InferenceError::UnsupportedConstruct);
            },
            PathArguments::AngleBracketed(args) => {
                let ghost views = args@;
                let ghost goal = most_concrete_arguments(sets, start, views, 0, Seq::empty());
                let mut resolved: Vec<GenericArgument> = Vec::new();
                let mut i: usize = 0;
                assert(arguments_view(resolved@) =~= Seq::<ArgumentView>::empty());
                while i < args.args.len()
                    invariant
                        i <= args.args.len(),
                        views == arguments_view(args.args@),
                        sets == type_equality_sets@,
                        extends(start, most_concrete_type_map@),
                        most_concrete_arguments(
                            sets,
                            most_concrete_type_map@,
                            views,
                            i as int,
                            arguments_view(resolved@),
                        ) == goal,
                    decreases args.args.len() - i,
                {
                    let ghost so_far = arguments_view(resolved@);
                    assert(views[i as int] == args.args@[i as int]@);
                    match &args.args[i] {
                        GenericArgument::Type(ty) => {
                            match ty.clone().0.make_most_concrete(
                                most_concrete_type_map,
                                type_equality_sets,
                            ) {
                                Ok(node) => {
                                    resolved.push(GenericArgument::Type(Type(node)));
                                    assert(arguments_view(resolved@) =~= so_far.push(
                                        ArgumentView::Type(node@),
                                    ));
                                },
                                Err(error) => {
                                    return Err(error);
                                },
                            }
                        },
                        GenericArgument::Lifetime(lifetime) => {
                            resolved.push(GenericArgument::Lifetime(*lifetime));
                            assert(arguments_view(resolved@) =~= so_far.push(views[i as int]));
                        },
                    }
                    i += 1;
                }
                resolved
            },
        };
        if arguments_relevant(&resolved, type_equality_sets, relevant_generic_params) {
            Ok(Some(replace_arguments(self, resolved)))
        } else {
            Ok(None)
        }
    }
}

impl TypeParamBound {
    /// The bound in its most concrete form, if it is relevant.
    pub fn make_most_relevant(
        self,
        most_concrete_type_map: &mut MostConcreteTypeMap,
        type_equality_sets: &TypeEqualitySets,
        relevant_generic_params: &SetRefs,
    ) -> (res: Result<Option<TypeParamBound>, InferenceError>)
        ensures
            found_bound(
                most_relevant_bound(
                    type_equality_sets@,
                    relevant_generic_params@,
                    old(most_concrete_type_map)@,
                    self@,
                ),
                final(most_concrete_type_map)@,
                res,
            ),
            extends(old(most_concrete_type_map)@, final(most_concrete_type_map)@),
    {
        match self {
            TypeParamBound::Trait(bound) => {
                let TraitBound { lifetimes, path } = bound;
                match path.make_most_relevant(
                    most_concrete_type_map,
                    type_equality_sets,
                    relevant_generic_params,
                ) {
                    Ok(Some(path)) => Ok(Some(TypeParamBound::Trait(TraitBound { path, lifetimes }))),
                    Ok(None) => Ok(None),
                    Err(error) => Err(error),
                }
            },
            TypeParamBound::Lifetime(lifetime) => Ok(Some(TypeParamBound::Lifetime(lifetime))),
        }
    }
}

impl PredicateType {
    /// The predicate in its most concrete form, if the type that it bounds
    /// and all of its bounds are relevant.
    #[verifier::loop_isolation(false)]
    pub fn make_most_relevant(
        self,
        most_concrete_type_map: &mut MostConcreteTypeMap,
        type_equality_sets: &TypeEqualitySets,
        relevant_generic_params: &SetRefs,
    ) -> (res: Result<Option<PredicateType>, InferenceError>)
        ensures
            found_predicate(
                most_relevant_predicate(
                    type_equality_sets@,
                    relevant_generic_params@,
                    old(most_concrete_type_map)@,
                    self.lifetimes@,
                    self.bounded_ty@,
                    bounds_view(self.bounds@),
                ),
                final(most_concrete_type_map)@,
                res,
            ),
            extends(old(most_concrete_type_map)@, final(most_concrete_type_map)@),
    {
        let ghost sets = type_equality_sets@;
        let ghost relevant = relevant_generic_params@;
        let PredicateType { lifetimes, bounded_ty, bounds } = self;
        let bounded_ty = match bounded_ty.0.make_most_relevant(
            most_concrete_type_map,
            type_equality_sets,
            relevant_generic_params,
        ) {
            Ok(Some(node)) => Type(node),
            Ok(None) => {
                return Ok(None);
            },
            Err(error) => {
                return Err(error);
            },
        };
        let ghost views = bounds_view(bounds@);
        let ghost middle = most_concrete_type_map@;
        let ghost goal = most_relevant_bounds(sets, relevant, middle, views, 0, Seq::empty());
        let mut items: Vec<Option<TypeParamBound>> = Vec::new();
        let mut i: usize = 0;
        assert(optional_bounds_view(items@) =~= Seq::<Option<BoundView>>::empty());
        while i < bounds.len()
            invariant
                i <= bounds.len(),
                extends(middle, most_concrete_type_map@),
                most_relevant_bounds(
                    sets,
                    relevant,
                    most_concrete_type_map@,
                    views,
                    i as int,
                    optional_bounds_view(items@),
                ) == goal,
            decreases bounds.len() - i,
        {
            let ghost so_far = optional_bounds_view(items@);
            assert(views[i as int] == bounds@[i as int]@);
            match bounds[i].clone().make_most_relevant(
                most_concrete_type_map,
                type_equality_sets,
                relevant_generic_params,
            ) {
                Ok(bound) => {
                    items.push(bound);
                    assert(optional_bounds_view(items@) =~= so_far.push(
                        match bound {
                            Some(b) => Some(b@),
                            None => None,
                        },
                    ));
                },
                Err(error) => {
                    return Err(error);
                },
            }
            i += 1;
        }
        let ghost found = optional_bounds_view(items@);
        match iter_option_to_option_vec(items) {
            Some(bounds) => {
                assert(all_present(found)->Some_0 =~= bounds_view(bounds@));
                Ok(Some(PredicateType { bounded_ty, bounds, lifetimes }))
            },
            None => {
                let ghost missing = choose|j: int| 0 <= j < items@.len() && items@[j] is None;
                assert(found[missing] is None);
                Ok(None)
            },
        }
    }
}

impl GenericConstraint {
    /// The constraint in its most concrete form, if it is relevant.
    pub fn make_most_relevant(
        self,
        most_concrete_type_map: &mut MostConcreteTypeMap,
        type_equality_sets: &TypeEqualitySets,
        relevant_generic_params: &SetRefs,
    ) -> (res: Result<Option<GenericConstraint>, InferenceError>)
        ensures
            found_constraint(
                most_relevant_constraint(
                    type_equality_sets@,
                    relevant_generic_params@,
                    old(most_concrete_type_map)@,
                    self@,
                ),
                final(most_concrete_type_map)@,
                res,
            ),
            extends(old(most_concrete_type_map)@, final(most_concrete_type_map)@),
    {
        match self {
            GenericConstraint::Type(pred_ty) => {
                match pred_ty.make_most_relevant(
                    most_concrete_type_map,
                    type_equality_sets,
                    relevant_generic_params,
                ) {
                    Ok(Some(pred_ty)) => Ok(Some(GenericConstraint::Type(pred_ty))),
                    Ok(None) => Ok(None),
                    Err(error) => Err(error),
                }
            },
            GenericConstraint::Lifetime(predicate) => Ok(
                Some(GenericConstraint::Lifetime(predicate)),
            ),
        }
    }
}

} // verus!
