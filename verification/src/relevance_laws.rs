//! What holds of relevance: it only grows, it reaches the type parameters
//! inside the most concrete types of relevant sets, and constraints that
//! were filtered once pass a second filter unchanged.

use crate::equality_sets::{insert_unique, lemma_new_set_wf, SetsView};
use crate::error::InferenceError;
use crate::generics::{ArgumentView, BoundView, ConstraintView};
use crate::ident::{GenericParam, TypeParamRef};
use crate::most_concrete::{most_concrete, most_concrete_of_set, resolved, with_arguments};
use crate::path::{ArgumentsView, SegmentView};
use crate::relevance::{
    all_present, bound_is_relevant, bounds_are_relevant, most_concrete_arguments,
    most_relevant_bound, most_relevant_bounds, most_relevant_constraint, most_relevant_path,
    most_relevant_type, predicate_is_relevant, type_is_relevant,
};
use crate::trait_inference::{
    gather_arguments, gather_segments, gather_type, gather_types, gathering,
    most_relevant_constraints, relevant_sets, Closure, Gathered,
};
use crate::ty::TypeView;
use vstd::prelude::*;

verus! {

/// A relevant type stays relevant when more sets are relevant.
pub proof fn law_relevance_monotone(
    sets: SetsView,
    relevant: Set<int>,
    larger: Set<int>,
    ty: TypeView,
)
    requires
        relevant.subset_of(larger),
        type_is_relevant(sets, relevant, ty),
    ensures
        type_is_relevant(sets, larger, ty),
    decreases ty,
{
    if ty is Reference {
        law_relevance_monotone(sets, relevant, larger, *ty->Reference_inner);
    } else if ty is ReferenceMut {
        law_relevance_monotone(sets, relevant, larger, *ty->ReferenceMut_inner);
    }
}

/// Relevance belongs to the set: of two type parameters of one set both
/// are relevant, or neither is.
pub proof fn law_relevance_of_a_set(
    sets: SetsView,
    relevant: Set<int>,
    first: TypeParamRef,
    second: TypeParamRef,
)
    requires
        sets.get_set_ref(TypeView::TypeParam(first)) == sets.get_set_ref(TypeView::TypeParam(second)),
    ensures
        type_is_relevant(sets, relevant, TypeView::TypeParam(first)) == type_is_relevant(
            sets,
            relevant,
            TypeView::TypeParam(second),
        ),
{
}

/// A relevant bound stays relevant when more sets are relevant.
pub proof fn lemma_bound_relevance_monotone(
    sets: SetsView,
    relevant: Set<int>,
    larger: Set<int>,
    bound: BoundView,
)
    requires
        relevant.subset_of(larger),
        bound_is_relevant(sets, relevant, bound) == Ok::<bool, InferenceError>(true),
    ensures
        bound_is_relevant(sets, larger, bound) == Ok::<bool, InferenceError>(true),
{
    if bound is Trait {
        let path = bound->path;
        if path.segments.last().args is AngleBracketed {
            let arguments = path.segments.last().args->AngleBracketed_0;
            assert forall|i: int|
                0 <= i < arguments.len() && (#[trigger] arguments[i]) is Type implies type_is_relevant(
                sets,
                larger,
                arguments[i]->Type_0,
            ) by {
                law_relevance_monotone(sets, relevant, larger, arguments[i]->Type_0);
            }
        }
    }
}

proof fn lemma_bounds_relevance_monotone(
    sets: SetsView,
    relevant: Set<int>,
    larger: Set<int>,
    bounds: Seq<BoundView>,
    i: int,
)
    requires
        relevant.subset_of(larger),
        bounds_are_relevant(sets, relevant, bounds, i) == Ok::<bool, InferenceError>(true),
    ensures
        bounds_are_relevant(sets, larger, bounds, i) == Ok::<bool, InferenceError>(true),
    decreases bounds.len() - i,
{
    if i < 0 || i >= bounds.len() {
    } else {
        lemma_bound_relevance_monotone(sets, relevant, larger, bounds[i]);
        lemma_bounds_relevance_monotone(sets, relevant, larger, bounds, i + 1);
    }
}

/// A relevant type predicate stays relevant when more sets are relevant.
pub proof fn law_predicate_relevance_monotone(
    sets: SetsView,
    relevant: Set<int>,
    larger: Set<int>,
    bounded_ty: TypeView,
    bounds: Seq<BoundView>,
)
    requires
        relevant.subset_of(larger),
        predicate_is_relevant(sets, relevant, bounded_ty, bounds) == Ok::<bool, InferenceError>(
            true,
        ),
    ensures
        predicate_is_relevant(sets, larger, bounded_ty, bounds) == Ok::<bool, InferenceError>(true),
{
    law_relevance_monotone(sets, relevant, larger, bounded_ty);
    lemma_bounds_relevance_monotone(sets, relevant, larger, bounds, 0);
}

/// Whether a type parameter stands in a type: whether it is that type, an
/// element of it where it is a tuple, behind it where it is a reference,
/// or among its generic arguments where it is a path, or stands in one of
/// those.
pub open spec fn mentions(ty: TypeView, param: TypeParamRef) -> bool
    decreases ty, 0int,
{
    if ty is Tuple {
        exists|i: int| 0 <= i < ty->Tuple_0.len() && mentions(#[trigger] ty->Tuple_0[i], param)
    } else if ty is Reference {
        mentions(*ty->Reference_inner, param)
    } else if ty is ReferenceMut {
        mentions(*ty->ReferenceMut_inner, param)
    } else if ty is Path {
        exists|i: int|
            0 <= i < ty->Path_0.segments.len() && segment_mentions(
                #[trigger] ty->Path_0.segments[i],
                param,
            )
    } else if ty is TypeParam {
        ty->TypeParam_0 == param
    } else {
        false
    }
}

/// Whether a type parameter stands among the generic arguments of a path
/// segment.
pub open spec fn segment_mentions(segment: SegmentView, param: TypeParamRef) -> bool
    decreases segment, 0int,
{
    segment.args is AngleBracketed && exists|j: int|
        0 <= j < segment.args->AngleBracketed_0.len() && argument_mentions(
            #[trigger] segment.args->AngleBracketed_0[j],
            param,
        )
}

/// Whether a type parameter stands in a generic argument.
pub open spec fn argument_mentions(argument: ArgumentView, param: TypeParamRef) -> bool
    decreases argument, 0int,
{
    argument is Type && mentions(argument->Type_0, param)
}

/// Whether the set of a type parameter was gathered.
pub open spec fn reached(gathered: Gathered, param: TypeParamRef) -> bool {
    type_is_relevant(gathered.sets, gathered.refs, TypeView::TypeParam(param))
}

/// What was gathered stays gathered.
proof fn lemma_gather_type_persists(gathered: Gathered, ty: TypeView, param: TypeParamRef)
    requires
        reached(gathered, param),
    ensures
        reached(gather_type(gathered, ty), param),
    decreases ty, 0int,
{
    if gathered.failure is Some {
    } else if ty is Tuple {
        lemma_gather_types_persists(gathered, ty->Tuple_0, 0, param);
    } else if ty is Reference {
        lemma_gather_type_persists(gathered, *ty->Reference_inner, param);
    } else if ty is ReferenceMut {
        lemma_gather_type_persists(gathered, *ty->ReferenceMut_inner, param);
    } else if ty is Path {
        lemma_gather_segments_persists(gathered, ty->Path_0.segments, 0, param);
    }
}

proof fn lemma_gather_types_persists(
    gathered: Gathered,
    types: Seq<TypeView>,
    i: int,
    param: TypeParamRef,
)
    requires
        reached(gathered, param),
    ensures
        reached(gather_types(gathered, types, i), param),
    decreases types, types.len() - i,
{
    if gathered.failure is Some || i < 0 || i >= types.len() {
    } else {
        lemma_gather_type_persists(gathered, types[i], param);
        lemma_gather_types_persists(gather_type(gathered, types[i]), types, i + 1, param);
    }
}

proof fn lemma_gather_segments_persists(
    gathered: Gathered,
    segments: Seq<SegmentView>,
    i: int,
    param: TypeParamRef,
)
    requires
        reached(gathered, param),
    ensures
        reached(gather_segments(gathered, segments, i), param),
    decreases segments, segments.len() - i,
{
    if gathered.failure is Some || i < 0 || i >= segments.len() {
    } else if segments[i].args is Empty {
        lemma_gather_segments_persists(gathered, segments, i + 1, param);
    } else if segments[i].args is AngleBracketed {
        lemma_gather_arguments_persists(gathered, segments[i].args->AngleBracketed_0, 0, param);
        lemma_gather_segments_persists(
            gather_arguments(gathered, segments[i].args->AngleBracketed_0, 0),
            segments,
            i + 1,
            param,
        );
    }
}

proof fn lemma_gather_arguments_persists(
    gathered: Gathered,
    arguments: Seq<ArgumentView>,
    i: int,
    param: TypeParamRef,
)
    requires
        reached(gathered, param),
    ensures
        reached(gather_arguments(gathered, arguments, i), param),
    decreases arguments, arguments.len() - i,
{
    if gathered.failure is Some || i < 0 || i >= arguments.len() {
    } else if arguments[i] is Type {
        lemma_gather_type_persists(gathered, arguments[i]->Type_0, param);
        lemma_gather_arguments_persists(
            gather_type(gathered, arguments[i]->Type_0),
            arguments,
            i + 1,
            param,
        );
    }
}

/// Gathering the type parameters of a type reaches every type parameter
/// that stands in it.
pub proof fn lemma_gather_type_reaches(gathered: Gathered, ty: TypeView, param: TypeParamRef)
    requires
        gather_type(gathered, ty).failure is None,
        mentions(ty, param),
    ensures
        reached(gather_type(gathered, ty), param),
    decreases ty, 0int,
{
    if gathered.failure is Some {
    } else if ty is Tuple {
        let k = choose|i: int| 0 <= i < ty->Tuple_0.len() && mentions(#[trigger] ty->Tuple_0[i], param);
        lemma_gather_types_reaches(gathered, ty->Tuple_0, 0, k, param);
    } else if ty is Reference {
        lemma_gather_type_reaches(gathered, *ty->Reference_inner, param);
    } else if ty is ReferenceMut {
        lemma_gather_type_reaches(gathered, *ty->ReferenceMut_inner, param);
    } else if ty is Path {
        let segments = ty->Path_0.segments;
        let k = choose|i: int|
            0 <= i < segments.len() && segment_mentions(#[trigger] segments[i], param);
        lemma_gather_segments_reaches(gathered, segments, 0, k, param);
    }
}

proof fn lemma_gather_types_reaches(
    gathered: Gathered,
    types: Seq<TypeView>,
    i: int,
    k: int,
    param: TypeParamRef,
)
    requires
        0 <= i <= k < types.len(),
        gather_types(gathered, types, i).failure is None,
        mentions(types[k], param),
    ensures
        reached(gather_types(gathered, types, i), param),
    decreases types, types.len() - i,
{
    if gathered.failure is Some {
    } else {
        let step = gather_type(gathered, types[i]);
        if step.failure is Some {
            assert(gather_types(step, types, i + 1) == step);
        } else if i == k {
            lemma_gather_type_reaches(gathered, types[i], param);
            lemma_gather_types_persists(step, types, i + 1, param);
        } else {
            lemma_gather_types_reaches(step, types, i + 1, k, param);
        }
    }
}

proof fn lemma_gather_segments_reaches(
    gathered: Gathered,
    segments: Seq<SegmentView>,
    i: int,
    k: int,
    param: TypeParamRef,
)
    requires
        0 <= i <= k < segments.len(),
        gather_segments(gathered, segments, i).failure is None,
        segment_mentions(segments[k], param),
    ensures
        reached(gather_segments(gathered, segments, i), param),
    decreases segments, segments.len() - i,
{
    if gathered.failure is Some {
    } else if segments[i].args is Empty {
        lemma_gather_segments_reaches(gathered, segments, i + 1, k, param);
    } else if segments[i].args is AngleBracketed {
        let arguments = segments[i].args->AngleBracketed_0;
        let step = gather_arguments(gathered, arguments, 0);
        if step.failure is Some {
            assert(gather_segments(step, segments, i + 1) == step);
        } else if i == k {
            let j = choose|j: int|
                0 <= j < arguments.len() && argument_mentions(#[trigger] arguments[j], param);
            lemma_gather_arguments_reaches(gathered, arguments, 0, j, param);
            lemma_gather_segments_persists(step, segments, i + 1, param);
        } else {
            lemma_gather_segments_reaches(step, segments, i + 1, k, param);
        }
    }
}

proof fn lemma_gather_arguments_reaches(
    gathered: Gathered,
    arguments: Seq<ArgumentView>,
    i: int,
    k: int,
    param: TypeParamRef,
)
    requires
        0 <= i <= k < arguments.len(),
        gather_arguments(gathered, arguments, i).failure is None,
        argument_mentions(arguments[k], param),
    ensures
        reached(gather_arguments(gathered, arguments, i), param),
    decreases arguments, arguments.len() - i,
{
    if gathered.failure is Some {
    } else if arguments[i] is Type {
        let step = gather_type(gathered, arguments[i]->Type_0);
        if step.failure is Some {
            assert(gather_arguments(step, arguments, i + 1) == step);
        } else if i == k {
            lemma_gather_type_reaches(gathered, arguments[i]->Type_0, param);
            lemma_gather_arguments_persists(step, arguments, i + 1, param);
        } else {
            lemma_gather_arguments_reaches(step, arguments, i + 1, k, param);
        }
    }
}

/// Whether a type parameter is relevant at a point of the search for the
/// relevant sets.
pub open spec fn relevant_at(closure: Closure, param: TypeParamRef) -> bool {
    type_is_relevant(closure.sets, closure.relevant, TypeView::TypeParam(param))
}

/// Relevance reaches inwards: where the search for the relevant sets looks
/// through the set of a generic parameter of the implementation, every
/// type parameter that stands in the most concrete type of that set, inside
/// tuples, references and paths, is relevant from then on.
pub proof fn law_relevance_reaches(closure: Closure, seed: TypeParamRef, param: TypeParamRef)
    requires
        closure.failure is None,
        closure.step(GenericParam::Type(seed)).failure is None,
        ({
            let ty = TypeView::TypeParam(seed);
            let sets = match closure.sets.get_set_ref(ty) {
                Some(_) => closure.sets,
                None => closure.sets.new_set(ty),
            };
            let set_ref = match closure.sets.get_set_ref(ty) {
                Some(set_ref) => set_ref,
                None => closure.sets.sets.len() as int,
            };
            &&& !closure.checked.contains(set_ref)
            &&& most_concrete_of_set(sets, closure.memo, set_ref).outcome matches Ok(node)
            &&& mentions(node, param)
        }),
    ensures
        relevant_at(closure.step(GenericParam::Type(seed)), param),
{
    let ty = TypeView::TypeParam(seed);
    let sets = match closure.sets.get_set_ref(ty) {
        Some(_) => closure.sets,
        None => closure.sets.new_set(ty),
    };
    let set_ref = match closure.sets.get_set_ref(ty) {
        Some(set_ref) => set_ref,
        None => closure.sets.sets.len() as int,
    };
    let found = most_concrete_of_set(sets, closure.memo, set_ref);
    lemma_gather_type_reaches(gathering(sets, closure.relevant), found.outcome->Ok_0, param);
}

/// What is relevant at one point of the search for the relevant sets is
/// relevant at its end.
pub proof fn law_relevance_persists(
    closure: Closure,
    params: Seq<GenericParam>,
    i: int,
    param: TypeParamRef,
)
    requires
        relevant_at(closure, param),
    ensures
        relevant_at(relevant_sets(closure, params, i), param),
    decreases params.len() - i,
{
    if closure.failure is Some || i < 0 || i >= params.len() {
    } else {
        let after = closure.step(params[i]);
        match params[i] {
            GenericParam::Lifetime(_) => {},
            GenericParam::Type(seed) => {
                let ty = TypeView::TypeParam(seed);
                let sets = match closure.sets.get_set_ref(ty) {
                    Some(_) => closure.sets,
                    None => closure.sets.new_set(ty),
                };
                let set_ref = match closure.sets.get_set_ref(ty) {
                    Some(set_ref) => set_ref,
                    None => closure.sets.sets.len() as int,
                };
                assert(type_is_relevant(sets, closure.relevant, TypeView::TypeParam(param)));
                if !closure.checked.contains(set_ref) {
                    let found = most_concrete_of_set(sets, closure.memo, set_ref);
                    if found.outcome is Ok {
                        lemma_gather_type_persists(
                            gathering(sets, closure.relevant),
                            found.outcome->Ok_0,
                            param,
                        );
                    }
                }
            },
        }
        law_relevance_persists(after, params, i + 1, param);
    }
}

/// Gathering keeps a store well formed.
pub proof fn lemma_gather_type_wf(gathered: Gathered, ty: TypeView)
    requires
        gathered.sets.wf(),
    ensures
        gather_type(gathered, ty).sets.wf(),
    decreases ty, 0int,
{
    if gathered.failure is Some {
    } else if ty is Tuple {
        lemma_gather_types_wf(gathered, ty->Tuple_0, 0);
    } else if ty is Reference {
        lemma_gather_type_wf(gathered, *ty->Reference_inner);
    } else if ty is ReferenceMut {
        lemma_gather_type_wf(gathered, *ty->ReferenceMut_inner);
    } else if ty is Path {
        lemma_gather_segments_wf(gathered, ty->Path_0.segments, 0);
    } else if ty is TypeParam {
        if gathered.sets.get_set_ref(ty) is None {
            lemma_new_set_wf(gathered.sets, ty);
        }
    }
}

pub proof fn lemma_gather_types_wf(gathered: Gathered, types: Seq<TypeView>, i: int)
    requires
        gathered.sets.wf(),
    ensures
        gather_types(gathered, types, i).sets.wf(),
    decreases types, types.len() - i,
{
    if gathered.failure is Some || i < 0 || i >= types.len() {
    } else {
        lemma_gather_type_wf(gathered, types[i]);
        lemma_gather_types_wf(gather_type(gathered, types[i]), types, i + 1);
    }
}

pub proof fn lemma_gather_segments_wf(gathered: Gathered, segments: Seq<SegmentView>, i: int)
    requires
        gathered.sets.wf(),
    ensures
        gather_segments(gathered, segments, i).sets.wf(),
    decreases segments, segments.len() - i,
{
    if gathered.failure is Some || i < 0 || i >= segments.len() {
    } else if segments[i].args is Empty {
        lemma_gather_segments_wf(gathered, segments, i + 1);
    } else if segments[i].args is AngleBracketed {
        lemma_gather_arguments_wf(gathered, segments[i].args->AngleBracketed_0, 0);
        lemma_gather_segments_wf(
            gather_arguments(gathered, segments[i].args->AngleBracketed_0, 0),
            segments,
            i + 1,
        );
    }
}

pub proof fn lemma_gather_arguments_wf(gathered: Gathered, arguments: Seq<ArgumentView>, i: int)
    requires
        gathered.sets.wf(),
    ensures
        gather_arguments(gathered, arguments, i).sets.wf(),
    decreases arguments, arguments.len() - i,
{
    if gathered.failure is Some || i < 0 || i >= arguments.len() {
    } else if arguments[i] is Type {
        lemma_gather_type_wf(gathered, arguments[i]->Type_0);
        lemma_gather_arguments_wf(gather_type(gathered, arguments[i]->Type_0), arguments, i + 1);
    }
}

/// The search for the relevant sets keeps a store well formed.
pub proof fn lemma_relevant_sets_wf(closure: Closure, params: Seq<GenericParam>, i: int)
    requires
        closure.sets.wf(),
    ensures
        relevant_sets(closure, params, i).sets.wf(),
    decreases params.len() - i,
{
    if closure.failure is Some || i < 0 || i >= params.len() {
    } else {
        match params[i] {
            GenericParam::Lifetime(_) => {},
            GenericParam::Type(seed) => {
                let ty = TypeView::TypeParam(seed);
                let sets = match closure.sets.get_set_ref(ty) {
                    Some(_) => closure.sets,
                    None => closure.sets.new_set(ty),
                };
                let set_ref = match closure.sets.get_set_ref(ty) {
                    Some(set_ref) => set_ref,
                    None => closure.sets.sets.len() as int,
                };
                if closure.sets.get_set_ref(ty) is None {
                    lemma_new_set_wf(closure.sets, ty);
                }
                assert(sets.wf());
                if !closure.checked.contains(set_ref) {
                    let found = most_concrete_of_set(sets, closure.memo, set_ref);
                    if found.outcome is Ok {
                        lemma_gather_type_wf(gathering(sets, closure.relevant), found.outcome->Ok_0);
                    }
                }
            },
        }
        lemma_relevant_sets_wf(closure.step(params[i]), params, i + 1);
    }
}

/// Whether a type is the type that it stands for, and finding that out
/// notes nothing.
pub open spec fn stands_for_itself(sets: SetsView, memo: Map<int, TypeView>, ty: TypeView) -> bool {
    most_concrete(sets, memo, ty) == resolved(memo, ty)
}

/// Whether every type among some generic arguments stands for itself.
pub open spec fn arguments_settled(
    sets: SetsView,
    memo: Map<int, TypeView>,
    arguments: Seq<ArgumentView>,
) -> bool {
    forall|i: int|
        0 <= i < arguments.len() && (#[trigger] arguments[i]) is Type ==> stands_for_itself(
            sets,
            memo,
            arguments[i]->Type_0,
        )
}

/// Whether every type among the generic arguments of the last segment of a
/// trait stands for itself.
pub open spec fn bound_settled(sets: SetsView, memo: Map<int, TypeView>, bound: BoundView) -> bool {
    bound is Trait && bound->path.segments.len() > 0 && bound->path.segments.last().args
        is AngleBracketed ==> arguments_settled(
        sets,
        memo,
        bound->path.segments.last().args->AngleBracketed_0,
    )
}

/// Whether a constraint is settled: whether the type that it bounds, and
/// every type among the generic arguments of its traits, stands for itself.
pub open spec fn constraint_settled(
    sets: SetsView,
    memo: Map<int, TypeView>,
    constraint: ConstraintView,
) -> bool {
    constraint matches ConstraintView::Type { bounded_ty, bounds, .. } ==> {
        &&& stands_for_itself(sets, memo, bounded_ty)
        &&& forall|i: int| 0 <= i < bounds.len() ==> bound_settled(sets, memo, #[trigger] bounds[i])
    }
}

/// Whether a bound is one that the filter lets through.
pub open spec fn bound_passes(sets: SetsView, relevant: Set<int>, bound: BoundView) -> bool {
    bound_is_relevant(sets, relevant, bound) == Ok::<bool, InferenceError>(true)
}

/// Whether a constraint is one that the filter lets through.
pub open spec fn constraint_passes(
    sets: SetsView,
    relevant: Set<int>,
    constraint: ConstraintView,
) -> bool {
    constraint matches ConstraintView::Type { bounded_ty, bounds, .. } ==> {
        &&& type_is_relevant(sets, relevant, bounded_ty)
        &&& forall|i: int| 0 <= i < bounds.len() ==> bound_passes(sets, relevant, #[trigger] bounds[i])
    }
}

proof fn lemma_bound_found_passes(
    sets: SetsView,
    relevant: Set<int>,
    memo: Map<int, TypeView>,
    bound: BoundView,
)
    requires
        most_relevant_bound(sets, relevant, memo, bound).outcome matches Ok(Some(_)),
    ensures
        bound_passes(sets, relevant, most_relevant_bound(sets, relevant, memo, bound).outcome->Ok_0->Some_0),
{
    if bound is Trait {
        let path = bound->path;
        let found = most_relevant_path(sets, relevant, memo, path);
        if path.segments.last().args is AngleBracketed {
            let arguments = most_concrete_arguments(
                sets,
                memo,
                path.segments.last().args->AngleBracketed_0,
                0,
                Seq::empty(),
            ).outcome->Ok_0;
            assert(found.outcome->Ok_0->Some_0 == with_arguments(path, arguments));
            assert(with_arguments(path, arguments).segments.last().args
                == ArgumentsView::AngleBracketed(arguments));
        }
    }
}

proof fn lemma_bounds_found_pass(
    sets: SetsView,
    relevant: Set<int>,
    memo: Map<int, TypeView>,
    bounds: Seq<BoundView>,
    i: int,
    done: Seq<Option<BoundView>>,
)
    requires
        forall|j: int|
            0 <= j < done.len() && (#[trigger] done[j]) is Some ==> bound_passes(
                sets,
                relevant,
                done[j]->Some_0,
            ),
        most_relevant_bounds(sets, relevant, memo, bounds, i, done).outcome is Ok,
    ensures
        ({
            let items = most_relevant_bounds(sets, relevant, memo, bounds, i, done).outcome->Ok_0;
            forall|j: int|
                0 <= j < items.len() && (#[trigger] items[j]) is Some ==> bound_passes(
                    sets,
                    relevant,
                    items[j]->Some_0,
                )
        }),
    decreases bounds.len() - i,
{
    if i < 0 || i >= bounds.len() {
    } else {
        let step = most_relevant_bound(sets, relevant, memo, bounds[i]);
        match step.outcome {
            Ok(bound) => {
                if bound is Some {
                    lemma_bound_found_passes(sets, relevant, memo, bounds[i]);
                }
                lemma_bounds_found_pass(sets, relevant, step.memo, bounds, i + 1, done.push(bound));
            },
            Err(_) => {},
        }
    }
}

/// What the filter lets through is relevant.
proof fn lemma_constraint_found_passes(
    sets: SetsView,
    relevant: Set<int>,
    memo: Map<int, TypeView>,
    constraint: ConstraintView,
)
    requires
        most_relevant_constraint(sets, relevant, memo, constraint).outcome matches Ok(Some(_)),
    ensures
        constraint_passes(
            sets,
            relevant,
            most_relevant_constraint(sets, relevant, memo, constraint).outcome->Ok_0->Some_0,
        ),
{
    match constraint {
        ConstraintView::Type { lifetimes, bounded_ty, bounds } => {
            let bounded = most_relevant_type(sets, relevant, memo, bounded_ty);
            lemma_bounds_found_pass(sets, relevant, bounded.memo, bounds, 0, Seq::empty());
            let items = most_relevant_bounds(
                sets,
                relevant,
                bounded.memo,
                bounds,
                0,
                Seq::empty(),
            ).outcome->Ok_0;
            let resolved = all_present(items)->Some_0;
            assert forall|i: int| 0 <= i < resolved.len() implies bound_passes(
                sets,
                relevant,
                #[trigger] resolved[i],
            ) by {
                assert(items[i] is Some);
            }
        },
        ConstraintView::Lifetime { .. } => {},
    }
}

proof fn lemma_filter_invariant(
    sets: SetsView,
    relevant: Set<int>,
    memo: Map<int, TypeView>,
    constraints: Seq<ConstraintView>,
    i: int,
    found: Seq<ConstraintView>,
)
    requires
        found.no_duplicates(),
        forall|j: int| 0 <= j < found.len() ==> constraint_passes(sets, relevant, #[trigger] found[j]),
        most_relevant_constraints(sets, relevant, memo, constraints, i, found).outcome is Ok,
    ensures
        ({
            let kept = most_relevant_constraints(sets, relevant, memo, constraints, i, found).outcome->Ok_0;
            &&& kept.no_duplicates()
            &&& forall|j: int|
                0 <= j < kept.len() ==> constraint_passes(sets, relevant, #[trigger] kept[j])
        }),
    decreases constraints.len() - i,
{
    if i < 0 || i >= constraints.len() {
    } else {
        let step = most_relevant_constraint(sets, relevant, memo, constraints[i]);
        match step.outcome {
            Ok(Some(constraint)) => {
                lemma_constraint_found_passes(sets, relevant, memo, constraints[i]);
                lemma_filter_invariant(
                    sets,
                    relevant,
                    step.memo,
                    constraints,
                    i + 1,
                    insert_unique(found, constraint),
                );
            },
            Ok(None) => {
                lemma_filter_invariant(sets, relevant, step.memo, constraints, i + 1, found);
            },
            Err(_) => {},
        }
    }
}

proof fn lemma_settled_arguments(
    sets: SetsView,
    memo: Map<int, TypeView>,
    arguments: Seq<ArgumentView>,
    i: int,
)
    requires
        0 <= i <= arguments.len(),
        arguments_settled(sets, memo, arguments),
    ensures
        most_concrete_arguments(sets, memo, arguments, i, arguments.take(i)) == resolved(
            memo,
            arguments,
        ),
    decreases arguments.len() - i,
{
    if i == arguments.len() {
        assert(arguments.take(i) =~= arguments);
    } else {
        assert(arguments.take(i).push(arguments[i]) =~= arguments.take(i + 1));
        if arguments[i] is Type {
            assert(stands_for_itself(sets, memo, arguments[i]->Type_0));
            assert(ArgumentView::Type(arguments[i]->Type_0) == arguments[i]);
        }
        lemma_settled_arguments(sets, memo, arguments, i + 1);
    }
}

proof fn lemma_settled_bound(
    sets: SetsView,
    relevant: Set<int>,
    memo: Map<int, TypeView>,
    bound: BoundView,
)
    requires
        bound_passes(sets, relevant, bound),
        bound_settled(sets, memo, bound),
    ensures
        most_relevant_bound(sets, relevant, memo, bound) == resolved(memo, Some(bound)),
{
    if bound is Trait {
        let path = bound->path;
        if path.segments.last().args is AngleBracketed {
            let arguments = path.segments.last().args->AngleBracketed_0;
            lemma_settled_arguments(sets, memo, arguments, 0);
            assert(arguments.take(0) =~= Seq::<ArgumentView>::empty());
            assert(with_arguments(path, arguments).segments =~= path.segments);
        }
    }
}

proof fn lemma_settled_bounds(
    sets: SetsView,
    relevant: Set<int>,
    memo: Map<int, TypeView>,
    bounds: Seq<BoundView>,
    i: int,
)
    requires
        0 <= i <= bounds.len(),
        forall|j: int| 0 <= j < bounds.len() ==> bound_passes(sets, relevant, #[trigger] bounds[j]),
        forall|j: int| 0 <= j < bounds.len() ==> bound_settled(sets, memo, #[trigger] bounds[j]),
    ensures
        most_relevant_bounds(
            sets,
            relevant,
            memo,
            bounds,
            i,
            Seq::new(i as nat, |j: int| Some(bounds[j])),
        ) == resolved(memo, Seq::new(bounds.len(), |j: int| Some(bounds[j]))),
    decreases bounds.len() - i,
{
    let done = Seq::new(i as nat, |j: int| Some(bounds[j]));
    if i == bounds.len() {
        assert(done =~= Seq::new(bounds.len(), |j: int| Some(bounds[j])));
    } else {
        lemma_settled_bound(sets, relevant, memo, bounds[i]);
        assert(done.push(Some(bounds[i])) =~= Seq::new((i + 1) as nat, |j: int| Some(bounds[j])));
        lemma_settled_bounds(sets, relevant, memo, bounds, i + 1);
    }
}

/// A settled constraint that the filter lets through comes out of it as it
/// went in, and nothing is noted for it.
proof fn lemma_settled_constraint(
    sets: SetsView,
    relevant: Set<int>,
    memo: Map<int, TypeView>,
    constraint: ConstraintView,
)
    requires
        constraint_passes(sets, relevant, constraint),
        constraint_settled(sets, memo, constraint),
    ensures
        most_relevant_constraint(sets, relevant, memo, constraint) == resolved(memo, Some(constraint)),
{
    match constraint {
        ConstraintView::Type { lifetimes, bounded_ty, bounds } => {
            lemma_settled_bounds(sets, relevant, memo, bounds, 0);
            let items = Seq::new(bounds.len(), |j: int| Some(bounds[j]));
            assert(Seq::new(0nat, |j: int| Some(bounds[j])) =~= Seq::<Option<BoundView>>::empty());
            assert(all_present(items) == Some(bounds)) by {
                assert(all_present(items)->Some_0 =~= bounds);
            }
        },
        ConstraintView::Lifetime { .. } => {},
    }
}

proof fn lemma_filter_settled(
    sets: SetsView,
    relevant: Set<int>,
    memo: Map<int, TypeView>,
    kept: Seq<ConstraintView>,
    i: int,
)
    requires
        0 <= i <= kept.len(),
        kept.no_duplicates(),
        forall|j: int| 0 <= j < kept.len() ==> constraint_passes(sets, relevant, #[trigger] kept[j]),
        forall|j: int| 0 <= j < kept.len() ==> constraint_settled(sets, memo, #[trigger] kept[j]),
    ensures
        most_relevant_constraints(sets, relevant, memo, kept, i, kept.take(i)) == resolved(memo, kept),
    decreases kept.len() - i,
{
    if i == kept.len() {
        assert(kept.take(i) =~= kept);
    } else {
        lemma_settled_constraint(sets, relevant, memo, kept[i]);
        assert(!kept.take(i).contains(kept[i]));
        assert(insert_unique(kept.take(i), kept[i]) =~= kept.take(i + 1));
        lemma_filter_settled(sets, relevant, memo, kept, i + 1);
    }
}

/// To filter constraints that were filtered before, against the same
/// relevant sets, changes nothing: where the constraints that the first
/// filter kept are settled, the second keeps the same constraints, in the
/// same order, and notes nothing.
pub proof fn law_filter_idempotent(
    sets: SetsView,
    relevant: Set<int>,
    memo: Map<int, TypeView>,
    constraints: Seq<ConstraintView>,
)
    requires
        most_relevant_constraints(sets, relevant, memo, constraints, 0, Seq::empty()).outcome
            is Ok,
        ({
            let first = most_relevant_constraints(sets, relevant, memo, constraints, 0, Seq::empty());
            forall|j: int|
                0 <= j < first.outcome->Ok_0.len() ==> constraint_settled(
                    sets,
                    first.memo,
                    #[trigger] first.outcome->Ok_0[j],
                )
        }),
    ensures
        ({
            let first = most_relevant_constraints(sets, relevant, memo, constraints, 0, Seq::empty());
            most_relevant_constraints(sets, relevant, first.memo, first.outcome->Ok_0, 0, Seq::empty())
                == first
        }),
{
    let first = most_relevant_constraints(sets, relevant, memo, constraints, 0, Seq::empty());
    let kept = first.outcome->Ok_0;
    lemma_filter_invariant(sets, relevant, memo, constraints, 0, Seq::empty());
    lemma_filter_settled(sets, relevant, first.memo, kept, 0);
    assert(kept.take(0) =~= Seq::<ConstraintView>::empty());
}

} // verus!
