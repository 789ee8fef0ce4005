//! What holds of tuples of type parameters that are declared equal, and of
//! an analysis that meets tuples of different lengths.

use crate::equality_sets::{
    insert_unique, lemma_add_member_wf, lemma_new_pair_wf, underway, unify, unify_each, unify_inner, Inference,
    SetsView,
};
use crate::error::InferenceError;
use crate::generics::{BoundView, ConstraintView, GenericsView};
use crate::ident::{GenericParam, LifetimeRef, TypeParamRef};
use crate::most_concrete::{
    keeps, merge_members, most_concrete, most_concrete_of_pair, most_concrete_of_set, resolved,
    smaller_param,
};
use crate::relevance::{
    all_present, most_relevant_bound, most_relevant_bounds, most_relevant_constraint,
    most_relevant_path, most_relevant_type, type_is_relevant,
};
use crate::laws::{joins_a_set, law_unify_joins_a_set, lemma_unify_grows};
use crate::trait_inference::{
    declare, function_pass, functions_pass, gather_type, gathering, invoke_pass,
    most_relevant_constraints, relevant_sets, searching, seed_constraints, seed_params,
    sorted_params, sorted_with, trait_bounds, Closure, CompleteImplView, InvokeView,
};
use crate::ty::{reference_to, TypeView};
use vstd::prelude::*;

verus! {

/// Whether every type of a list is a type parameter.
pub open spec fn all_parameters(types: Seq<TypeView>) -> bool {
    forall|i: int| 0 <= i < types.len() ==> (#[trigger] types[i]) is TypeParam
}

/// Whether two types are known to a store and belong to one set.
pub open spec fn share_a_set(sets: SetsView, a: TypeView, b: TypeView) -> bool {
    &&& sets.map.contains_key(a)
    &&& sets.map.contains_key(b)
    &&& sets.map[a] == sets.map[b]
}

/// Whether a store says of every type but two what another store said.
pub open spec fn moved_only(after: SetsView, before: SetsView, a: TypeView, b: TypeView) -> bool {
    forall|ty: TypeView| ty != a && ty != b ==> #[trigger] after.get_set_ref(ty) == before.get_set_ref(ty)
}

/// Two types of different shapes that are declared equal end in one set;
/// no other type is moved, and no constraint is added.
pub proof fn lemma_unify_leaves(pass: Inference, a: TypeView, b: TypeView)
    requires
        pass.failure is None,
        pass.sets.wf(),
        joins_a_set(a, b),
        unify_inner(pass, a, b) == pass,
    ensures
        ({
            let after = unify(pass, a, b);
            &&& after.failure is None
            &&& after.constraints == pass.constraints
            &&& after.sets.wf()
            &&& share_a_set(after.sets, a, b)
            &&& moved_only(after.sets, pass.sets, a, b)
        }),
{
    lemma_unify_grows(pass, a, b);
    match pass.sets.get_set_ref(a) {
        Some(set_ref) => lemma_add_member_wf(pass.sets, set_ref, b),
        None => match pass.sets.get_set_ref(b) {
            Some(set_ref) => lemma_add_member_wf(pass.sets, set_ref, a),
            None => lemma_new_pair_wf(pass.sets, b, a),
        },
    }
    law_unify_joins_a_set(pass, a, b);
}

/// Whether a type is none of the types of two lists from place `i` on.
pub open spec fn apart_from(ty: TypeView, a: Seq<TypeView>, b: Seq<TypeView>, i: int) -> bool {
    forall|k: int| i <= k < a.len() && k < b.len() ==> ty != #[trigger] a[k] && ty != #[trigger] b[k]
}

proof fn lemma_unify_each_parameters(pass: Inference, a: Seq<TypeView>, b: Seq<TypeView>, i: int)
    requires
        pass.failure is None,
        pass.sets.wf(),
        a.len() == b.len(),
        all_parameters(a),
        all_parameters(b),
        (a + b).no_duplicates(),
        0 <= i <= a.len(),
    ensures
        ({
            let after = unify_each(pass, a, b, i);
            &&& after.failure is None
            &&& after.constraints == pass.constraints
            &&& after.sets.wf()
            &&& forall|k: int| i <= k < a.len() ==> share_a_set(after.sets, #[trigger] a[k], b[k])
            &&& forall|ty: TypeView|
                apart_from(ty, a, b, i) ==> #[trigger] after.sets.get_set_ref(ty)
                    == pass.sets.get_set_ref(ty)
        }),
    decreases a.len() - i,
{
    if i < a.len() {
        let n = a.len() as int;
        let step = unify(pass, a[i], b[i]);
        assert(a[i] is TypeParam && b[i] is TypeParam);
        lemma_unify_leaves(pass, a[i], b[i]);
        lemma_unify_each_parameters(step, a, b, i + 1);
        let after = unify_each(pass, a, b, i);
        assert(after == unify_each(step, a, b, i + 1));
        assert forall|ty: TypeView| apart_from(ty, a, b, i) implies #[trigger] after.sets.get_set_ref(
            ty,
        ) == pass.sets.get_set_ref(ty) by {
            assert(ty != a[i] && ty != b[i]);
            assert(apart_from(ty, a, b, i + 1));
            assert(step.sets.get_set_ref(ty) == pass.sets.get_set_ref(ty));
        }
        assert(share_a_set(after.sets, a[i], b[i])) by {
            assert forall|k: int| i + 1 <= k < n implies a[i] != #[trigger] a[k] && a[i] != #[trigger] b[k]
                && b[i] != a[k] && b[i] != b[k] by {
                assert((a + b)[i] == a[i] && (a + b)[k] == a[k]);
                assert((a + b)[n + i] == b[i] && (a + b)[n + k] == b[k]);
            }
            assert(apart_from(a[i], a, b, i + 1));
            assert(apart_from(b[i], a, b, i + 1));
            assert(after.sets.get_set_ref(a[i]) == step.sets.get_set_ref(a[i]));
            assert(after.sets.get_set_ref(b[i]) == step.sets.get_set_ref(b[i]));
        }
    }
}

/// Two tuples of as many type parameters, all different, unify: each
/// parameter of the first ends in one set with its counterpart, the two
/// tuples end in one set, and no constraint is added.
pub proof fn law_unify_tuples_of_parameters(pass: Inference, a: Seq<TypeView>, b: Seq<TypeView>)
    requires
        pass.failure is None,
        pass.sets.wf(),
        a.len() == b.len(),
        all_parameters(a),
        all_parameters(b),
        (a + b).no_duplicates(),
    ensures
        ({
            let after = unify(pass, TypeView::Tuple(a), TypeView::Tuple(b));
            &&& after.failure is None
            &&& after.constraints == pass.constraints
            &&& after.sets.wf()
            &&& forall|k: int| 0 <= k < a.len() ==> share_a_set(after.sets, #[trigger] a[k], b[k])
            &&& share_a_set(after.sets, TypeView::Tuple(a), TypeView::Tuple(b))
        }),
{
    let ta = TypeView::Tuple(a);
    let tb = TypeView::Tuple(b);
    let inner = unify_inner(pass, ta, tb);
    let after = unify(pass, ta, tb);
    lemma_unify_each_parameters(pass, a, b, 0);
    assert(inner == unify_each(pass, a, b, 0));
    assert(apart_from(ta, a, b, 0));
    assert(apart_from(tb, a, b, 0));
    assert(inner.sets.get_set_ref(ta) == pass.sets.get_set_ref(ta));
    assert(inner.sets.get_set_ref(tb) == pass.sets.get_set_ref(tb));
    match pass.sets.get_set_ref(ta) {
        Some(set_ref) => lemma_add_member_wf(inner.sets, set_ref, tb),
        None => match pass.sets.get_set_ref(tb) {
            Some(set_ref) => lemma_add_member_wf(inner.sets, set_ref, ta),
            None => lemma_new_pair_wf(inner.sets, tb, ta),
        },
    }
    law_unify_joins_a_set(pass, ta, tb);
    assert forall|k: int| 0 <= k < a.len() implies share_a_set(after.sets, #[trigger] a[k], b[k]) by {
        assert(share_a_set(inner.sets, a[k], b[k]));
        assert(a[k] != ta && a[k] != tb && b[k] != ta && b[k] != tb);
    }
}

/// Whether a call hands a tuple to a place that expects a tuple of another
/// length.
pub open spec fn mismatched_at(invoke: InvokeView, i: int) -> bool {
    &&& 0 <= i < invoke.inputs.len()
    &&& i < invoke.args.len()
    &&& invoke.inputs[i] is Tuple
    &&& invoke.args[i] is Tuple
    &&& invoke.inputs[i]->Tuple_0.len() != invoke.args[i]->Tuple_0.len()
}

proof fn lemma_unify_each_fails(pass: Inference, a: Seq<TypeView>, b: Seq<TypeView>, j: int, i: int)
    requires
        0 <= j <= i < a.len(),
        i < b.len(),
        a[i] is Tuple,
        b[i] is Tuple,
        a[i]->Tuple_0.len() != b[i]->Tuple_0.len(),
    ensures
        unify_each(pass, a, b, j).failure is Some,
    decreases i - j,
{
    if pass.failure is Some {
    } else if j == i {
        let step = unify(pass, a[i], b[i]);
        assert(unify_inner(pass, a[i], b[i]).failure is Some);
        assert(step.failure is Some);
        assert(unify_each(step, a, b, i + 1) == step);
    } else {
        lemma_unify_each_fails(unify(pass, a[j], b[j]), a, b, j + 1, i);
    }
}

proof fn lemma_function_pass_fails(
    pass: Inference,
    invokes: Seq<InvokeView>,
    j: int,
    k: int,
    i: int,
)
    requires
        0 <= j <= k < invokes.len(),
        mismatched_at(invokes[k], i),
    ensures
        function_pass(pass, invokes, j).failure is Some,
    decreases k - j,
{
    if pass.failure is Some {
    } else if j == k {
        lemma_unify_each_fails(pass, invokes[k].inputs, invokes[k].args, 0, i);
        let step = invoke_pass(pass, invokes[k]);
        assert(function_pass(step, invokes, k + 1) == step);
    } else {
        lemma_function_pass_fails(invoke_pass(pass, invokes[j]), invokes, j + 1, k, i);
    }
}

proof fn lemma_functions_pass_fails(
    pass: Inference,
    functions: Seq<Seq<InvokeView>>,
    j: int,
    f: int,
    k: int,
    i: int,
)
    requires
        0 <= j <= f < functions.len(),
        0 <= k < functions[f].len(),
        mismatched_at(functions[f][k], i),
    ensures
        functions_pass(pass, functions, j).failure is Some,
    decreases f - j,
{
    if pass.failure is Some {
    } else if j == f {
        lemma_function_pass_fails(pass, functions[f], 0, k, i);
        let step = function_pass(pass, functions[f], 0);
        assert(functions_pass(step, functions, f + 1) == step);
    } else {
        lemma_functions_pass_fails(function_pass(pass, functions[j], 0), functions, j + 1, f, k, i);
    }
}

/// An analysis in which some call hands a tuple to a place that expects a
/// tuple of another length gives no constraints at all.
pub proof fn law_mismatched_tuples_fail(implementation: CompleteImplView, f: int, k: int, i: int)
    requires
        0 <= f < implementation.functions.len(),
        0 <= k < implementation.functions[f].len(),
        mismatched_at(implementation.functions[f][k], i),
    ensures
        trait_bounds(implementation) is Err,
{
    let start = underway(
        SetsView { map: Map::empty(), sets: Seq::empty() },
        seed_constraints(implementation),
    );
    lemma_functions_pass_fails(start, implementation.functions, 0, f, k, i);
}

/// The pass after the pairs of types from place `j` up to place `i` were
/// declared equal.
pub open spec fn unified_before(
    pass: Inference,
    a: Seq<TypeView>,
    b: Seq<TypeView>,
    j: int,
    i: int,
) -> Inference
    decreases i - j,
{
    if j >= i {
        pass
    } else {
        unified_before(unify(pass, a[j], b[j]), a, b, j + 1, i)
    }
}

proof fn lemma_unify_each_fails_first(
    pass: Inference,
    a: Seq<TypeView>,
    b: Seq<TypeView>,
    j: int,
    i: int,
)
    requires
        0 <= j <= i < a.len(),
        i < b.len(),
        a[i] is Tuple,
        b[i] is Tuple,
        a[i]->Tuple_0.len() != b[i]->Tuple_0.len(),
        unified_before(pass, a, b, j, i).failure is None,
    ensures
        unify_each(pass, a, b, j).failure == Some(InferenceError::ArityMismatch),
    decreases i - j,
{
    if j == i {
        let step = unify(pass, a[i], b[i]);
        assert(unify_inner(pass, a[i], b[i]).failure == Some(InferenceError::ArityMismatch));
        assert(step.failure == Some(InferenceError::ArityMismatch));
        assert(unify_each(step, a, b, i + 1) == step);
    } else {
        let step = unify(pass, a[j], b[j]);
        if pass.failure is Some {
            assert(step == pass);
            lemma_unified_before_failed(pass, a, b, j + 1, i);
        }
        lemma_unify_each_fails_first(step, a, b, j + 1, i);
    }
}

proof fn lemma_unified_before_failed(
    pass: Inference,
    a: Seq<TypeView>,
    b: Seq<TypeView>,
    j: int,
    i: int,
)
    requires
        pass.failure is Some,
    ensures
        unified_before(pass, a, b, j, i) == pass,
    decreases i - j,
{
    if j < i {
        lemma_unified_before_failed(pass, a, b, j + 1, i);
    }
}

/// A call that hands a tuple to a place that expects a tuple of another
/// length fails as a mismatch of arity, where the values in front of the
/// tuple unify.
pub proof fn law_mismatched_tuples_fail_first(pass: Inference, invoke: InvokeView, i: int)
    requires
        mismatched_at(invoke, i),
        unified_before(pass, invoke.inputs, invoke.args, 0, i).failure is None,
    ensures
        invoke_pass(pass, invoke).failure == Some(InferenceError::ArityMismatch),
{
    lemma_unify_each_fails_first(pass, invoke.inputs, invoke.args, 0, i);
}

/// The constraint that a type parameter meets one bound.
pub open spec fn bound_on(param: TypeParamRef, bound: BoundView) -> ConstraintView {
    ConstraintView::Type {
        lifetimes: Seq::empty(),
        bounded_ty: TypeView::TypeParam(param),
        bounds: seq![bound],
    }
}

/// Whether a bound is a trait without generic arguments.
pub open spec fn is_plain_trait(bound: BoundView) -> bool {
    &&& bound is Trait
    &&& bound->path.segments.len() > 0
    &&& bound->path.segments.last().args is Empty
}

/// The store that two types make that were declared equal in an empty
/// store: one set, which holds both.
pub open spec fn store_of_pair(first: TypeView, second: TypeView) -> SetsView {
    SetsView { map: Map::empty(), sets: Seq::empty() }.new_pair(first, second)
}

/// Two different type parameters that are declared equal in an empty store
/// make one set of both, the second in front.
proof fn lemma_unify_parameters_in_empty_store(
    constraints: Seq<ConstraintView>,
    a: TypeParamRef,
    b: TypeParamRef,
)
    ensures
        unify(
            underway(SetsView { map: Map::empty(), sets: Seq::empty() }, constraints),
            TypeView::TypeParam(a),
            TypeView::TypeParam(b),
        ) == underway(store_of_pair(TypeView::TypeParam(b), TypeView::TypeParam(a)), constraints),
{
    let pass = underway(SetsView { map: Map::empty(), sets: Seq::empty() }, constraints);
    assert(unify_inner(pass, TypeView::TypeParam(a), TypeView::TypeParam(b)) == pass);
}

/// The one set of two different type parameters resolves to the one with
/// the smaller identity, and that is noted.
proof fn lemma_pair_resolves(first: TypeParamRef, second: TypeParamRef)
    requires
        first != second,
    ensures
        ({
            let sets = store_of_pair(TypeView::TypeParam(first), TypeView::TypeParam(second));
            let smaller = smaller_param(TypeView::TypeParam(first), TypeView::TypeParam(second));
            &&& sets.sets.len() == 1
            &&& sets.get_set_ref(TypeView::TypeParam(first)) == Some(0int)
            &&& sets.get_set_ref(TypeView::TypeParam(second)) == Some(0int)
            &&& most_concrete_of_set(sets, Map::empty(), 0) == resolved(
                Map::<int, TypeView>::empty().insert(0, smaller),
                smaller,
            )
        }),
{
    let a = TypeView::TypeParam(first);
    let b = TypeView::TypeParam(second);
    let sets = store_of_pair(a, b);
    let smaller = smaller_param(a, b);
    let members = sets.sets[0];
    assert(!seq![a].contains(b)) by {
        if seq![a].contains(b) {
            let i = choose|i: int| 0 <= i < seq![a].len() && seq![a][i] == b;
            assert(seq![a][i] == a);
        }
    }
    assert(members =~= seq![a, b]);
    let seeded = Map::<int, TypeView>::empty().insert(0, TypeView::Infer);
    let step = most_concrete_of_pair(sets, seeded, a, b);
    assert(step == resolved(seeded, smaller));
    assert(keeps(sets, seeded, seeded));
    assert(merge_members(sets, seeded, members, 2, smaller) == resolved(seeded, smaller));
    assert(merge_members(sets, seeded, members, 1, a) == resolved(seeded, smaller));
    assert(seeded.insert(0, smaller) =~= Map::<int, TypeView>::empty().insert(0, smaller));
}

/// In the store of two different type parameters, with the smaller noted
/// for their set and that set relevant, a bound on either by a trait
/// without generic arguments is kept as a bound on the smaller.
proof fn lemma_bound_moves_to_the_smaller(
    first: TypeParamRef,
    second: TypeParamRef,
    bounded: TypeParamRef,
    bound: BoundView,
)
    requires
        first != second,
        bounded == first || bounded == second,
        is_plain_trait(bound),
    ensures
        ({
            let sets = store_of_pair(TypeView::TypeParam(first), TypeView::TypeParam(second));
            let smaller = smaller_param(TypeView::TypeParam(first), TypeView::TypeParam(second));
            let memo = Map::<int, TypeView>::empty().insert(0, smaller);
            most_relevant_constraint(sets, set![0int], memo, bound_on(bounded, bound)) == resolved(
                memo,
                Some(bound_on(smaller->TypeParam_0, bound)),
            )
        }),
{
    let a = TypeView::TypeParam(first);
    let b = TypeView::TypeParam(second);
    let sets = store_of_pair(a, b);
    let smaller = smaller_param(a, b);
    let memo = Map::<int, TypeView>::empty().insert(0, smaller);
    let relevant = set![0int];
    let ty = TypeView::TypeParam(bounded);
    assert(sets.get_set_ref(ty) == Some(0int));
    assert(most_concrete_of_set(sets, memo, 0) == resolved(memo, smaller));
    assert(most_concrete(sets, memo, ty) == resolved(memo, smaller));
    assert(sets.get_set_ref(smaller) == Some(0int));
    assert(type_is_relevant(sets, relevant, smaller));
    assert(most_relevant_type(sets, relevant, memo, ty) == resolved(memo, Some(smaller)));
    assert(most_relevant_path(sets, relevant, memo, bound->path) == resolved(
        memo,
        Some(bound->path),
    ));
    assert(most_relevant_bound(sets, relevant, memo, bound) == resolved(memo, Some(bound)));
    let bounds = seq![bound];
    let one = Seq::<Option<BoundView>>::empty().push(Some(bound));
    assert(most_relevant_bounds(sets, relevant, memo, bounds, 1, one) == resolved(memo, one));
    assert(most_relevant_bounds(sets, relevant, memo, bounds, 0, Seq::empty()) == resolved(
        memo,
        one,
    ));
    assert(all_present(one) == Some(bounds)) by {
        assert(one[0] is Some);
        assert(all_present(one)->Some_0 =~= bounds);
    }
    assert(smaller == TypeView::TypeParam(smaller->TypeParam_0));
}

/// A call of a helper that takes one value of its own type parameter
/// `t`, on which it requires one bound, with a value of type `p`.
pub open spec fn call_of_helper(p: TypeParamRef, t: TypeParamRef, required: BoundView) -> InvokeView {
    InvokeView {
        parent_generics: None,
        generics: Some(
            GenericsView {
                params: seq![GenericParam::Type(t)],
                constraints: seq![bound_on(t, required)],
            },
        ),
        inputs: seq![TypeView::TypeParam(t)],
        args: seq![TypeView::TypeParam(p)],
    }
}

/// What is left of two constraints on one parameter: both, or the one
/// where they are the same.
pub open spec fn both_bounds(
    param: TypeParamRef,
    first: BoundView,
    second: BoundView,
) -> Seq<ConstraintView> {
    insert_unique(seq![bound_on(param, first)], bound_on(param, second))
}

/// The two constraints from which the filter starts come out as
/// constraints on the smaller parameter.
proof fn lemma_filter_of_pair(
    first: TypeParamRef,
    second: TypeParamRef,
    bounded_a: TypeParamRef,
    bound_a: BoundView,
    bounded_b: TypeParamRef,
    bound_b: BoundView,
)
    requires
        first != second,
        bounded_a == first || bounded_a == second,
        bounded_b == first || bounded_b == second,
        is_plain_trait(bound_a),
        is_plain_trait(bound_b),
    ensures
        ({
            let sets = store_of_pair(TypeView::TypeParam(first), TypeView::TypeParam(second));
            let smaller = smaller_param(TypeView::TypeParam(first), TypeView::TypeParam(second));
            let memo = Map::<int, TypeView>::empty().insert(0, smaller);
            most_relevant_constraints(
                sets,
                set![0int],
                memo,
                seq![bound_on(bounded_a, bound_a), bound_on(bounded_b, bound_b)],
                0,
                Seq::empty(),
            ).outcome == Ok::<Seq<ConstraintView>, InferenceError>(
                both_bounds(smaller->TypeParam_0, bound_a, bound_b),
            )
        }),
{
    let sets = store_of_pair(TypeView::TypeParam(first), TypeView::TypeParam(second));
    let smaller = smaller_param(TypeView::TypeParam(first), TypeView::TypeParam(second));
    let memo = Map::<int, TypeView>::empty().insert(0, smaller);
    let relevant = set![0int];
    let constraints = seq![bound_on(bounded_a, bound_a), bound_on(bounded_b, bound_b)];
    let kept_a = bound_on(smaller->TypeParam_0, bound_a);
    let kept_b = bound_on(smaller->TypeParam_0, bound_b);
    lemma_bound_moves_to_the_smaller(first, second, bounded_a, bound_a);
    lemma_bound_moves_to_the_smaller(first, second, bounded_b, bound_b);
    let one = insert_unique(Seq::<ConstraintView>::empty(), kept_a);
    assert(one =~= seq![kept_a]);
    let two = insert_unique(one, kept_b);
    assert(most_relevant_constraints(sets, relevant, memo, constraints, 2, two) == resolved(
        memo,
        two,
    ));
    assert(most_relevant_constraints(sets, relevant, memo, constraints, 1, one) == resolved(
        memo,
        two,
    ));
    assert(most_relevant_constraints(sets, relevant, memo, constraints, 0, Seq::empty())
        == resolved(memo, two));
}

/// The search for the relevant sets that starts from the two parameters of
/// a store of a pair, or from one of them, finds their one set, and notes
/// the smaller parameter for it.
proof fn lemma_search_of_pair(first: TypeParamRef, second: TypeParamRef, seeds: Seq<GenericParam>)
    requires
        first != second,
        seeds.len() > 0,
        forall|i: int|
            0 <= i < seeds.len() ==> (#[trigger] seeds[i]) == GenericParam::Type(first) || seeds[i]
                == GenericParam::Type(second),
    ensures
        ({
            let sets = store_of_pair(TypeView::TypeParam(first), TypeView::TypeParam(second));
            let smaller = smaller_param(TypeView::TypeParam(first), TypeView::TypeParam(second));
            let closure = relevant_sets(searching(sets, Map::empty()), seeds, 0);
            &&& closure.failure is None
            &&& closure.sets == sets
            &&& closure.relevant == set![0int]
            &&& closure.memo == Map::<int, TypeView>::empty().insert(0, smaller)
        }),
{
    let sets = store_of_pair(TypeView::TypeParam(first), TypeView::TypeParam(second));
    let smaller = smaller_param(TypeView::TypeParam(first), TypeView::TypeParam(second));
    let memo = Map::<int, TypeView>::empty().insert(0, smaller);
    lemma_pair_resolves(first, second);
    let start = searching(sets, Map::empty());
    let found = Closure {
        sets,
        memo,
        checked: set![0int],
        relevant: set![0int],
        failure: None,
    };
    assert(sets.get_set_ref(smaller) == Some(0int));
    assert(gather_type(gathering(sets, Set::empty()), smaller) == gathering(
        sets,
        Set::<int>::empty().insert(0),
    ));
    assert(Set::<int>::empty().insert(0) =~= set![0int]);
    assert(start.step(seeds[0]) == found);
    lemma_search_goes_on(first, second, seeds, 1);
}

proof fn lemma_search_goes_on(
    first: TypeParamRef,
    second: TypeParamRef,
    seeds: Seq<GenericParam>,
    i: int,
)
    requires
        first != second,
        0 <= i <= seeds.len(),
        forall|i: int|
            0 <= i < seeds.len() ==> (#[trigger] seeds[i]) == GenericParam::Type(first) || seeds[i]
                == GenericParam::Type(second),
    ensures
        ({
            let sets = store_of_pair(TypeView::TypeParam(first), TypeView::TypeParam(second));
            let smaller = smaller_param(TypeView::TypeParam(first), TypeView::TypeParam(second));
            let found = Closure {
                sets,
                memo: Map::<int, TypeView>::empty().insert(0, smaller),
                checked: set![0int],
                relevant: set![0int],
                failure: None,
            };
            relevant_sets(found, seeds, i) == found
        }),
    decreases seeds.len() - i,
{
    if i < seeds.len() {
        let sets = store_of_pair(TypeView::TypeParam(first), TypeView::TypeParam(second));
        let smaller = smaller_param(TypeView::TypeParam(first), TypeView::TypeParam(second));
        let found = Closure {
            sets,
            memo: Map::<int, TypeView>::empty().insert(0, smaller),
            checked: set![0int],
            relevant: set![0int],
            failure: None,
        };
        lemma_pair_resolves(first, second);
        assert(found.step(seeds[i]) == found);
        lemma_search_goes_on(first, second, seeds, i + 1);
    }
}

/// An implementation for a data structure with one parameter `p`, on which
/// it declares one bound, that hands a value of type `p` to a helper which
/// requires another bound on its own parameter `t`, has to declare both
/// bounds on `p`, and none on `t`.
pub proof fn law_declared_and_required_bounds(
    implementation: CompleteImplView,
    p: TypeParamRef,
    t: TypeParamRef,
    declared: BoundView,
    required: BoundView,
)
    requires
        implementation.ty is DataStructure,
        implementation.ty->DataStructure_generics.params == seq![GenericParam::Type(p)],
        implementation.ty->DataStructure_generics.constraints == seq![bound_on(p, declared)],
        implementation.trait_generics is None,
        implementation.functions == seq![seq![call_of_helper(p, t, required)]],
        p.0 < t.0,
        is_plain_trait(declared),
        is_plain_trait(required),
    ensures
        trait_bounds(implementation) == Ok::<Seq<ConstraintView>, InferenceError>(
            both_bounds(p, declared, required),
        ),
        declared != required ==> both_bounds(p, declared, required) == seq![
            bound_on(p, declared),
            bound_on(p, required),
        ],
{
    let empty = SetsView { map: Map::empty(), sets: Seq::empty() };
    let of_p = bound_on(p, declared);
    let of_t = bound_on(t, required);
    let call = call_of_helper(p, t, required);
    let invokes = seq![call];
    let ty_p = TypeView::TypeParam(p);
    let ty_t = TypeView::TypeParam(t);
    // The constraints that the analysis starts from.
    let generics = implementation.ty->DataStructure_generics;
    assert(declare(insert_unique(Seq::empty(), of_p), generics.constraints, 1) == seq![of_p]) by {
        assert(insert_unique(Seq::<ConstraintView>::empty(), of_p) =~= seq![of_p]);
    }
    assert(declare(Seq::empty(), generics.constraints, 0) == seq![of_p]);
    assert(seed_constraints(implementation) == seq![of_p]);
    let start = underway(empty, seq![of_p]);
    // The one call.
    lemma_unify_parameters_in_empty_store(seq![of_p], t, p);
    let unified = unify(start, ty_t, ty_p);
    let sets = store_of_pair(ty_p, ty_t);
    assert(unify_each(unified, call.inputs, call.args, 1) == unified);
    assert(unify_each(start, call.inputs, call.args, 0) == unified);
    let gathered = seq![of_p, of_t];
    assert(insert_unique(seq![of_p], of_t) =~= gathered) by {
        if seq![of_p].contains(of_t) {
            let i = choose|i: int| 0 <= i < seq![of_p].len() && seq![of_p][i] == of_t;
            assert(seq![of_p][i] == of_p);
        }
    }
    assert(declare(seq![of_p], seq![of_t], 0) == gathered) by {
        assert(declare(gathered, seq![of_t], 1) == gathered);
    }
    let pass = underway(sets, gathered);
    assert(invoke_pass(start, call) == pass);
    assert(function_pass(pass, invokes, 1) == pass);
    assert(function_pass(start, invokes, 0) == pass);
    assert(functions_pass(pass, implementation.functions, 1) == pass);
    assert(functions_pass(start, implementation.functions, 0) == pass);
    // The search for the relevant sets.
    let seeds = seq![GenericParam::Type(p)];
    assert(sorted_params(generics.params, 0, Seq::empty()) == seeds) by {
        assert(sorted_with(Seq::empty(), GenericParam::Type(p)) == seeds);
        assert(sorted_params(generics.params, 1, seeds) == seeds);
    }
    assert(seed_params(implementation) == seeds);
    lemma_search_of_pair(p, t, seeds);
    // The filter.
    lemma_filter_of_pair(p, t, p, declared, t, required);
    assert(smaller_param(ty_p, ty_t) == ty_p);
    if declared != required {
        let kept = bound_on(p, required);
        if seq![of_p].contains(kept) {
            let i = choose|i: int| 0 <= i < seq![of_p].len() && seq![of_p][i] == kept;
            assert(seq![of_p][i] == of_p);
            assert(of_p->Type_bounds[0] == kept->Type_bounds[0]);
        }
        assert(both_bounds(p, declared, required) =~= seq![of_p, kept]);
    }
}

/// A call that hands a shared reference to `p` to a place that expects a
/// mutable reference to `q`.
pub open spec fn call_with_reference(
    p: TypeParamRef,
    q: TypeParamRef,
    lifetime_p: Option<LifetimeRef>,
    lifetime_q: Option<LifetimeRef>,
) -> InvokeView {
    InvokeView {
        parent_generics: None,
        generics: None,
        inputs: seq![reference_to(TypeView::TypeParam(q), lifetime_q, true)],
        args: seq![reference_to(TypeView::TypeParam(p), lifetime_p, false)],
    }
}

/// An implementation for a data structure with two parameters, with one
/// bound declared on each, that hands a shared reference to the first to a
/// place that expects a mutable reference to the second: the sets of the
/// two parameters are one, the parameter with the smaller identity stands
/// for both, and both bounds have to be declared on it.
pub proof fn law_bounds_of_merged_parameters(
    implementation: CompleteImplView,
    p: TypeParamRef,
    q: TypeParamRef,
    lifetime_p: Option<LifetimeRef>,
    lifetime_q: Option<LifetimeRef>,
    on_p: BoundView,
    on_q: BoundView,
)
    requires
        implementation.ty is DataStructure,
        implementation.ty->DataStructure_generics.params == seq![
            GenericParam::Type(p),
            GenericParam::Type(q),
        ],
        implementation.ty->DataStructure_generics.constraints == seq![
            bound_on(p, on_p),
            bound_on(q, on_q),
        ],
        implementation.trait_generics is None,
        implementation.functions == seq![seq![call_with_reference(p, q, lifetime_p, lifetime_q)]],
        p.0 < q.0,
        is_plain_trait(on_p),
        is_plain_trait(on_q),
    ensures
        trait_bounds(implementation) == Ok::<Seq<ConstraintView>, InferenceError>(
            both_bounds(p, on_p, on_q),
        ),
        on_p != on_q ==> both_bounds(p, on_p, on_q) == seq![bound_on(p, on_p), bound_on(p, on_q)],
{
    let empty = SetsView { map: Map::empty(), sets: Seq::empty() };
    let of_p = bound_on(p, on_p);
    let of_q = bound_on(q, on_q);
    let call = call_with_reference(p, q, lifetime_p, lifetime_q);
    let invokes = seq![call];
    let ty_p = TypeView::TypeParam(p);
    let ty_q = TypeView::TypeParam(q);
    // The constraints that the analysis starts from.
    let generics = implementation.ty->DataStructure_generics;
    let declared = seq![of_p, of_q];
    assert(insert_unique(Seq::<ConstraintView>::empty(), of_p) =~= seq![of_p]);
    assert(insert_unique(seq![of_p], of_q) =~= declared) by {
        if seq![of_p].contains(of_q) {
            let i = choose|i: int| 0 <= i < seq![of_p].len() && seq![of_p][i] == of_q;
            assert(seq![of_p][i] == of_p);
        }
    }
    assert(declare(declared, generics.constraints, 2) == declared);
    assert(declare(seq![of_p], generics.constraints, 1) == declared);
    assert(declare(Seq::empty(), generics.constraints, 0) == declared);
    assert(seed_constraints(implementation) == declared);
    let start = underway(empty, declared);
    // The one call: the references give way to what they point to.
    lemma_unify_parameters_in_empty_store(declared, q, p);
    let sets = store_of_pair(ty_p, ty_q);
    let pass = underway(sets, declared);
    assert(unify(start, call.inputs[0], call.args[0]) == unify(start, ty_q, ty_p));
    assert(unify_each(pass, call.inputs, call.args, 1) == pass);
    assert(unify_each(start, call.inputs, call.args, 0) == pass);
    assert(invoke_pass(start, call) == pass);
    assert(function_pass(pass, invokes, 1) == pass);
    assert(function_pass(start, invokes, 0) == pass);
    assert(functions_pass(pass, implementation.functions, 1) == pass);
    assert(functions_pass(start, implementation.functions, 0) == pass);
    // The search for the relevant sets.
    let seeds = seq![GenericParam::Type(p), GenericParam::Type(q)];
    assert(sorted_params(generics.params, 0, Seq::empty()) == seeds) by {
        let one = seq![GenericParam::Type(p)];
        assert(sorted_with(Seq::empty(), GenericParam::Type(p)) == one);
        assert(one.drop_first() =~= Seq::<GenericParam>::empty());
        assert(sorted_with(one.drop_first(), GenericParam::Type(q)) == seq![GenericParam::Type(q)]);
        assert(sorted_with(one, GenericParam::Type(q)) =~= seeds);
        assert(sorted_params(generics.params, 2, seeds) == seeds);
        assert(sorted_params(generics.params, 1, one) == seeds);
    }
    assert(seed_params(implementation) == seeds);
    lemma_search_of_pair(p, q, seeds);
    // The filter.
    lemma_filter_of_pair(p, q, p, on_p, q, on_q);
    assert(smaller_param(ty_p, ty_q) == ty_p);
    if on_p != on_q {
        let kept = bound_on(p, on_q);
        if seq![of_p].contains(kept) {
            let i = choose|i: int| 0 <= i < seq![of_p].len() && seq![of_p][i] == kept;
            assert(seq![of_p][i] == of_p);
            assert(of_p->Type_bounds[0] == kept->Type_bounds[0]);
        }
        assert(both_bounds(p, on_p, on_q) =~= seq![of_p, kept]);
    }
}

} // verus!
