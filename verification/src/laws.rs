//! What holds of the unification of types, of the most concrete type and of
//! relevance, whatever the types and the store.

use crate::equality_sets::{
    lemma_add_member_wf, lemma_new_pair_wf, unify, unify_arguments, unify_bounds, unify_each,
    unify_inner, unify_path_arguments, Inference, SetsView,
};
use crate::error::InferenceError;
use crate::generics::{ArgumentView, BoundView};
use crate::ident::LifetimeRef;
use crate::most_concrete::{
    extends, is_seeded, keeps, lemma_unresolved_insert, lemma_unresolved_monotone, merge_members,
    most_concrete, most_concrete_of_arguments, most_concrete_of_each, most_concrete_of_pair,
    most_concrete_of_paths, most_concrete_of_set, unresolved, with_arguments, Resolved,
};
use crate::path::PathView;
use crate::ty::TypeView;
use vstd::prelude::*;

verus! {

/// Whether a pass has come from another by unifying: its store is well
/// formed, and has all that the store of the other had.
pub open spec fn grown_from(after: Inference, before: Inference) -> bool {
    &&& after.sets.wf()
    &&& after.sets.holds_all_of(before.sets)
}

/// Unifying keeps a store well formed, and takes no set away.
pub proof fn lemma_unify_grows(pass: Inference, a: TypeView, b: TypeView)
    requires
        pass.sets.wf(),
    ensures
        grown_from(unify(pass, a, b), pass),
    decreases a, 1int,
{
    if pass.failure is Some {
    } else if a is TraitObject && b is TraitObject {
        if a->TraitObject_0.len() == b->TraitObject_0.len() {
            lemma_unify_inner_grows(pass, a, b);
        }
    } else if a is TraitObject {
    } else if b is TraitObject {
    } else if a is Reference && b is ReferenceMut {
        lemma_unify_grows(pass, *a->Reference_inner, *b->ReferenceMut_inner);
    } else if a is ReferenceMut && b is Reference {
        lemma_unify_grows(pass, *a->ReferenceMut_inner, *b->Reference_inner);
    } else {
        lemma_unify_inner_grows(pass, a, b);
        let inner = unify_inner(pass, a, b);
        if inner.failure is None {
            match pass.sets.get_set_ref(a) {
                Some(set_ref) => lemma_add_member_wf(inner.sets, set_ref, b),
                None => match pass.sets.get_set_ref(b) {
                    Some(set_ref) => lemma_add_member_wf(inner.sets, set_ref, a),
                    None => lemma_new_pair_wf(inner.sets, b, a),
                },
            }
        }
    }
}

pub proof fn lemma_unify_inner_grows(pass: Inference, a: TypeView, b: TypeView)
    requires
        pass.sets.wf(),
    ensures
        grown_from(unify_inner(pass, a, b), pass),
    decreases a, 0int,
{
    if pass.failure is Some {
    } else if a is Tuple && b is Tuple {
        if a->Tuple_0.len() == b->Tuple_0.len() {
            lemma_unify_each_grows(pass, a->Tuple_0, b->Tuple_0, 0);
        }
    } else if a is Reference && b is Reference {
        lemma_unify_grows(pass, *a->Reference_inner, *b->Reference_inner);
    } else if a is ReferenceMut && b is ReferenceMut {
        lemma_unify_grows(pass, *a->ReferenceMut_inner, *b->ReferenceMut_inner);
    } else if a is Path && b is Path {
        lemma_unify_path_arguments_grows(pass, a->Path_0, b->Path_0);
    } else if a is TraitObject && b is TraitObject {
        lemma_unify_bounds_grows(pass, a->TraitObject_0, b->TraitObject_0, 0);
    }
}

pub proof fn lemma_unify_each_grows(pass: Inference, a: Seq<TypeView>, b: Seq<TypeView>, i: int)
    requires
        pass.sets.wf(),
    ensures
        grown_from(unify_each(pass, a, b, i), pass),
    decreases a, a.len() - i,
{
    if pass.failure is Some || i < 0 || i >= a.len() || i >= b.len() {
    } else {
        lemma_unify_grows(pass, a[i], b[i]);
        lemma_unify_each_grows(unify(pass, a[i], b[i]), a, b, i + 1);
    }
}

pub proof fn lemma_unify_path_arguments_grows(pass: Inference, a: PathView, b: PathView)
    requires
        pass.sets.wf(),
    ensures
        grown_from(unify_path_arguments(pass, a, b), pass),
    decreases a, 0int,
{
    if pass.failure is Some || a.segments.len() == 0 || b.segments.len() == 0 {
    } else {
        let args_a = a.segments.last().args;
        let args_b = b.segments.last().args;
        if args_a is AngleBracketed && args_b is AngleBracketed
            && args_a->AngleBracketed_0.len() == args_b->AngleBracketed_0.len() {
            lemma_unify_arguments_grows(pass, args_a->AngleBracketed_0, args_b->AngleBracketed_0, 0);
        }
    }
}

pub proof fn lemma_unify_arguments_grows(
    pass: Inference,
    a: Seq<ArgumentView>,
    b: Seq<ArgumentView>,
    i: int,
)
    requires
        pass.sets.wf(),
    ensures
        grown_from(unify_arguments(pass, a, b, i), pass),
    decreases a, a.len() - i,
{
    if pass.failure is Some || i < 0 || i >= a.len() || i >= b.len() {
    } else if a[i] is Type && b[i] is Type {
        lemma_unify_grows(pass, a[i]->Type_0, b[i]->Type_0);
        lemma_unify_arguments_grows(unify(pass, a[i]->Type_0, b[i]->Type_0), a, b, i + 1);
    }
}

pub proof fn lemma_unify_bounds_grows(pass: Inference, a: Seq<BoundView>, b: Seq<BoundView>, i: int)
    requires
        pass.sets.wf(),
    ensures
        grown_from(unify_bounds(pass, a, b, i), pass),
    decreases a, a.len() - i,
{
    if pass.failure is Some || i < 0 || i >= a.len() || i >= b.len() {
    } else if a[i] is Trait && b[i] is Trait {
        lemma_unify_path_arguments_grows(pass, a[i]->path, b[i]->path);
        lemma_unify_bounds_grows(unify_path_arguments(pass, a[i]->path, b[i]->path), a, b, i + 1);
    } else {
        lemma_unify_bounds_grows(pass, a, b, i + 1);
    }
}

/// In a well formed store two types can always be put into one set: the
/// sets that they belonged to are still there after their parts were
/// unified.
pub proof fn lemma_merge_succeeds(pass: Inference, inner: Inference, a: TypeView, b: TypeView)
    requires
        pass.sets.wf(),
        grown_from(inner, pass),
        inner.failure is None,
    ensures
        inner.merge(pass.sets.get_set_ref(a), pass.sets.get_set_ref(b), a, b).failure is None,
{
}

/// Whether two types are put into one set when they are declared equal:
/// whether neither is a trait object, and they are not a reference and a
/// mutable reference.
pub open spec fn joins_a_set(a: TypeView, b: TypeView) -> bool {
    &&& !(a is TraitObject)
    &&& !(b is TraitObject)
    &&& !(a is Reference && b is ReferenceMut)
    &&& !(a is ReferenceMut && b is Reference)
}

/// After two types were declared equal, both are known, and one set holds
/// both: the set of the second where the first was known before, else the
/// set of the first. Nothing that was known before is forgotten, and no set
/// loses a member. Where unifying their parts did not move the two types
/// themselves, that one set is the set of both.
pub proof fn law_unify_joins_a_set(pass: Inference, a: TypeView, b: TypeView)
    requires
        pass.failure is None,
        pass.sets.wf(),
        joins_a_set(a, b),
        unify(pass, a, b).failure is None,
    ensures
        ({
            let inner = unify_inner(pass, a, b).sets;
            let after = unify(pass, a, b).sets;
            let joined = if pass.sets.map.contains_key(a) {
                after.map[b]
            } else {
                after.map[a]
            };
            &&& after.wf()
            &&& after.holds_all_of(pass.sets)
            &&& after.map.contains_key(a)
            &&& after.map.contains_key(b)
            &&& after.sets[joined].contains(a)
            &&& after.sets[joined].contains(b)
            &&& inner.get_set_ref(a) == pass.sets.get_set_ref(a) && inner.get_set_ref(b)
                == pass.sets.get_set_ref(b) ==> after.map[a] == after.map[b]
        }),
{
    lemma_unify_grows(pass, a, b);
    lemma_unify_inner_grows(pass, a, b);
    let inner = unify_inner(pass, a, b);
    match pass.sets.get_set_ref(a) {
        Some(set_ref) => {
            assert(pass.sets.sets[set_ref].contains(a));
            assert(inner.sets.sets[set_ref].contains(a));
            lemma_add_member_wf(inner.sets, set_ref, b);
        },
        None => match pass.sets.get_set_ref(b) {
            Some(set_ref) => {
                assert(pass.sets.sets[set_ref].contains(b));
                assert(inner.sets.sets[set_ref].contains(b));
                lemma_add_member_wf(inner.sets, set_ref, a);
            },
            None => {
                lemma_new_pair_wf(inner.sets, b, a);
            },
        },
    }
}

/// The pass after the first `n` pairs of elements of two tuples were
/// unified, in order.
pub open spec fn unify_prefix(pass: Inference, a: Seq<TypeView>, b: Seq<TypeView>, n: int) -> Inference
    decreases n,
{
    if n <= 0 {
        pass
    } else {
        unify(unify_prefix(pass, a, b, n - 1), a[n - 1], b[n - 1])
    }
}

proof fn lemma_prefix_failed(pass: Inference, a: Seq<TypeView>, b: Seq<TypeView>, m: int, n: int)
    requires
        0 <= m <= n,
        unify_prefix(pass, a, b, m).failure is Some,
    ensures
        unify_prefix(pass, a, b, n) == unify_prefix(pass, a, b, m),
    decreases n - m,
{
    if m < n {
        lemma_prefix_failed(pass, a, b, m, n - 1);
    }
}

proof fn lemma_each_of_prefix(pass: Inference, a: Seq<TypeView>, b: Seq<TypeView>, i: int)
    requires
        a.len() == b.len(),
        0 <= i <= a.len(),
    ensures
        unify_each(unify_prefix(pass, a, b, i), a, b, i) == unify_prefix(pass, a, b, a.len() as int),
    decreases a.len() - i,
{
    let here = unify_prefix(pass, a, b, i);
    if i == a.len() {
    } else if here.failure is Some {
        lemma_prefix_failed(pass, a, b, i, a.len() as int);
    } else {
        lemma_each_of_prefix(pass, a, b, i + 1);
    }
}

/// Unifying two tuples succeeds exactly when they have as many elements
/// and each element of the first unifies with its counterpart, in order;
/// tuples of different lengths fail with a mismatch of arity, and tuples of
/// one length fail as the first pair of elements that fails.
pub proof fn law_unify_tuples(pass: Inference, a: Seq<TypeView>, b: Seq<TypeView>)
    requires
        pass.failure is None,
        pass.sets.wf(),
    ensures
        ({
            let whole = unify(pass, TypeView::Tuple(a), TypeView::Tuple(b));
            &&& a.len() != b.len() ==> whole.failure == Some(InferenceError::ArityMismatch)
            &&& a.len() == b.len() ==> whole.failure == unify_prefix(
                pass,
                a,
                b,
                a.len() as int,
            ).failure
            &&& whole.failure is None <==> a.len() == b.len() && forall|i: int|
                0 <= i < a.len() ==> (#[trigger] unify_prefix(pass, a, b, i + 1)).failure is None
        }),
{
    let ta = TypeView::Tuple(a);
    let tb = TypeView::Tuple(b);
    let whole = unify(pass, ta, tb);
    let inner = unify_inner(pass, ta, tb);
    if a.len() == b.len() {
        lemma_each_of_prefix(pass, a, b, 0);
        lemma_unify_inner_grows(pass, ta, tb);
        if inner.failure is None {
            lemma_merge_succeeds(pass, inner, ta, tb);
        }
        let last = unify_prefix(pass, a, b, a.len() as int);
        assert(inner == last);
        assert(whole.failure == last.failure);
        if last.failure is None {
            assert forall|i: int| 0 <= i < a.len() implies (#[trigger] unify_prefix(
                pass,
                a,
                b,
                i + 1,
            )).failure is None by {
                if unify_prefix(pass, a, b, i + 1).failure is Some {
                    lemma_prefix_failed(pass, a, b, i + 1, a.len() as int);
                }
            }
        } else {
            if a.len() == 0 {
            } else {
                assert(unify_prefix(pass, a, b, (a.len() - 1) + 1) == last);
            }
        }
    }
}

/// Whether a pass has not failed with a mismatch of arity.
pub open spec fn no_mismatch(pass: Inference) -> bool {
    pass.failure != Some(InferenceError::ArityMismatch)
}

/// Unifying a type with itself never fails with a mismatch of arity.
pub proof fn lemma_unify_self(pass: Inference, x: TypeView)
    requires
        no_mismatch(pass),
    ensures
        no_mismatch(unify(pass, x, x)),
    decreases x, 1int,
{
    if pass.failure is Some {
    } else {
        lemma_unify_inner_self(pass, x);
    }
}

pub proof fn lemma_unify_inner_self(pass: Inference, x: TypeView)
    requires
        no_mismatch(pass),
    ensures
        no_mismatch(unify_inner(pass, x, x)),
    decreases x, 0int,
{
    if pass.failure is Some {
    } else if x is Tuple {
        lemma_unify_each_self(pass, x->Tuple_0, 0);
    } else if x is Reference {
        lemma_unify_self(pass, *x->Reference_inner);
    } else if x is ReferenceMut {
        lemma_unify_self(pass, *x->ReferenceMut_inner);
    } else if x is Path {
        lemma_unify_path_arguments_self(pass, x->Path_0);
    } else if x is TraitObject {
        lemma_unify_bounds_self(pass, x->TraitObject_0, 0);
    }
}

pub proof fn lemma_unify_each_self(pass: Inference, a: Seq<TypeView>, i: int)
    requires
        no_mismatch(pass),
    ensures
        no_mismatch(unify_each(pass, a, a, i)),
    decreases a, a.len() - i,
{
    if pass.failure is Some || i < 0 || i >= a.len() {
    } else {
        lemma_unify_self(pass, a[i]);
        lemma_unify_each_self(unify(pass, a[i], a[i]), a, i + 1);
    }
}

pub proof fn lemma_unify_path_arguments_self(pass: Inference, a: PathView)
    requires
        no_mismatch(pass),
    ensures
        no_mismatch(unify_path_arguments(pass, a, a)),
    decreases a, 0int,
{
    if pass.failure is Some || a.segments.len() == 0 {
    } else {
        let args = a.segments.last().args;
        if args is AngleBracketed {
            lemma_unify_arguments_self(pass, args->AngleBracketed_0, 0);
        }
    }
}

pub proof fn lemma_unify_arguments_self(pass: Inference, a: Seq<ArgumentView>, i: int)
    requires
        no_mismatch(pass),
    ensures
        no_mismatch(unify_arguments(pass, a, a, i)),
    decreases a, a.len() - i,
{
    if pass.failure is Some || i < 0 || i >= a.len() {
    } else if a[i] is Type {
        lemma_unify_self(pass, a[i]->Type_0);
        lemma_unify_arguments_self(unify(pass, a[i]->Type_0, a[i]->Type_0), a, i + 1);
    }
}

pub proof fn lemma_unify_bounds_self(pass: Inference, a: Seq<BoundView>, i: int)
    requires
        no_mismatch(pass),
    ensures
        no_mismatch(unify_bounds(pass, a, a, i)),
    decreases a, a.len() - i,
{
    if pass.failure is Some || i < 0 || i >= a.len() {
    } else if a[i] is Trait {
        lemma_unify_path_arguments_self(pass, a[i]->path);
        lemma_unify_bounds_self(unify_path_arguments(pass, a[i]->path, a[i]->path), a, i + 1);
    } else {
        lemma_unify_bounds_self(pass, a, i + 1);
    }
}

/// Unifying two references to one type, of whatever kinds and lifetimes,
/// unifies that type with itself and never fails with a mismatch of arity.
/// Where the two are of different kinds nothing else is done; where they
/// are of one kind, the two references are then put into one set.
pub proof fn law_unify_references(
    pass: Inference,
    inner: TypeView,
    lifetime_a: Option<LifetimeRef>,
    lifetime_b: Option<LifetimeRef>,
)
    requires
        pass.failure is None,
    ensures
        ({
            let shared_a = TypeView::Reference { lifetime: lifetime_a, inner: Box::new(inner) };
            let shared_b = TypeView::Reference { lifetime: lifetime_b, inner: Box::new(inner) };
            let unique_a = TypeView::ReferenceMut { lifetime: lifetime_a, inner: Box::new(inner) };
            let unique_b = TypeView::ReferenceMut { lifetime: lifetime_b, inner: Box::new(inner) };
            let itself = unify(pass, inner, inner);
            &&& no_mismatch(itself)
            &&& unify(pass, shared_a, unique_b) == itself
            &&& unify(pass, unique_a, shared_b) == itself
            &&& unify_inner(pass, shared_a, shared_b) == itself
            &&& unify_inner(pass, unique_a, unique_b) == itself
            &&& no_mismatch(unify(pass, shared_a, shared_b))
            &&& no_mismatch(unify(pass, unique_a, unique_b))
            &&& itself.failure is None ==> unify(pass, shared_a, shared_b) == itself.merge(
                pass.sets.get_set_ref(shared_a),
                pass.sets.get_set_ref(shared_b),
                shared_a,
                shared_b,
            )
            &&& itself.failure is None ==> unify(pass, unique_a, unique_b) == itself.merge(
                pass.sets.get_set_ref(unique_a),
                pass.sets.get_set_ref(unique_b),
                unique_a,
                unique_b,
            )
        }),
{
    lemma_unify_self(pass, inner);
}

/// Resolving never forgets a type that was noted: the guards against that
/// in the definitions of the most concrete type never strike.
pub proof fn lemma_most_concrete_extends(sets: SetsView, memo: Map<int, TypeView>, ty: TypeView)
    ensures
        extends(memo, most_concrete(sets, memo, ty).memo),
    decreases 4 * unresolved(sets, memo) + 1, ty, 0int,
{
    match sets.get_set_ref(ty) {
        Some(set_ref) => {
            if !is_seeded(memo, set_ref) {
                lemma_most_concrete_of_set_extends(sets, memo, set_ref);
            }
        },
        None => {},
    }
}

pub proof fn lemma_most_concrete_of_set_extends(sets: SetsView, memo: Map<int, TypeView>, set_ref: int)
    ensures
        extends(memo, most_concrete_of_set(sets, memo, set_ref).memo),
    decreases 4 * unresolved(sets, memo), TypeView::Infer, 0int,
{
    if memo.contains_key(set_ref) {
    } else if !(0 <= set_ref < sets.sets.len()) || sets.sets[set_ref].len() == 0 {
    } else {
        let members = sets.sets[set_ref];
        let seeded = memo.insert(set_ref, TypeView::Infer);
        lemma_unresolved_insert(memo, set_ref, TypeView::Infer, sets.sets.len() as int);
        lemma_merge_members_extends(sets, seeded, members, 1, members[0]);
    }
}

pub proof fn lemma_merge_members_extends(
    sets: SetsView,
    memo: Map<int, TypeView>,
    members: Seq<TypeView>,
    i: int,
    current: TypeView,
)
    ensures
        extends(memo, merge_members(sets, memo, members, i, current).memo),
    decreases 4 * unresolved(sets, memo) + 3, TypeView::Infer, members.len() - i,
{
    if i < 0 || i >= members.len() {
    } else {
        lemma_most_concrete_of_pair_extends(sets, memo, current, members[i]);
        let step = most_concrete_of_pair(sets, memo, current, members[i]);
        match step.outcome {
            Ok(ty) => {
                if keeps(sets, memo, step.memo) {
                    lemma_merge_members_extends(sets, step.memo, members, i + 1, ty);
                }
            },
            Err(_) => {},
        }
    }
}

pub proof fn lemma_most_concrete_of_pair_extends(
    sets: SetsView,
    memo: Map<int, TypeView>,
    a: TypeView,
    b: TypeView,
)
    ensures
        extends(memo, most_concrete_of_pair(sets, memo, a, b).memo),
    decreases 4 * unresolved(sets, memo) + 2, a, 0int,
{
    if a is Infer {
        lemma_most_concrete_extends(sets, memo, b);
    } else if b is Infer {
        lemma_most_concrete_extends(sets, memo, a);
    } else if a is PrimitiveStr || b is PrimitiveStr {
    } else if a is Path && b is Path {
        lemma_most_concrete_of_paths_extends(sets, memo, a->Path_0, b->Path_0);
    } else if a is Path {
        lemma_most_concrete_extends(sets, memo, a);
    } else if b is Path {
        lemma_most_concrete_extends(sets, memo, b);
    } else if a is Tuple && b is Tuple {
        if a->Tuple_0.len() == b->Tuple_0.len() {
            lemma_most_concrete_of_each_extends(sets, memo, a->Tuple_0, b->Tuple_0, 0, Seq::empty());
        }
    } else if a is Reference && b is Reference {
        lemma_most_concrete_of_pair_extends(sets, memo, *a->Reference_inner, *b->Reference_inner);
    } else if a is ReferenceMut && b is ReferenceMut {
        lemma_most_concrete_of_pair_extends(
            sets,
            memo,
            *a->ReferenceMut_inner,
            *b->ReferenceMut_inner,
        );
    } else if a is TraitObject {
        lemma_most_concrete_extends(sets, memo, b);
    } else if b is TraitObject {
        lemma_most_concrete_extends(sets, memo, a);
    }
}

pub proof fn lemma_most_concrete_of_each_extends(
    sets: SetsView,
    memo: Map<int, TypeView>,
    a: Seq<TypeView>,
    b: Seq<TypeView>,
    i: int,
    merged: Seq<TypeView>,
)
    ensures
        extends(memo, most_concrete_of_each(sets, memo, a, b, i, merged).memo),
    decreases 4 * unresolved(sets, memo) + 2, a, a.len() - i,
{
    if i < 0 || i >= a.len() || i >= b.len() {
    } else {
        lemma_most_concrete_of_pair_extends(sets, memo, a[i], b[i]);
        let step = most_concrete_of_pair(sets, memo, a[i], b[i]);
        match step.outcome {
            Ok(ty) => {
                if keeps(sets, memo, step.memo) {
                    lemma_most_concrete_of_each_extends(sets, step.memo, a, b, i + 1, merged.push(ty));
                }
            },
            Err(_) => {},
        }
    }
}

pub proof fn lemma_most_concrete_of_paths_extends(
    sets: SetsView,
    memo: Map<int, TypeView>,
    a: PathView,
    b: PathView,
)
    ensures
        extends(memo, most_concrete_of_paths(sets, memo, a, b).memo),
    decreases 4 * unresolved(sets, memo) + 2, a, 0int,
{
    if a.segments.len() == 0 || b.segments.len() == 0 {
    } else {
        let args_a = a.segments.last().args;
        let args_b = b.segments.last().args;
        if args_a is Empty {
        } else if args_b is Empty {
        } else if args_a is AngleBracketed && args_b is AngleBracketed {
            let list_a = args_a->AngleBracketed_0;
            let list_b = args_b->AngleBracketed_0;
            if list_a.len() < list_b.len() {
                lemma_most_concrete_extends(sets, memo, TypeView::Path(a));
            } else if list_a.len() > list_b.len() {
                lemma_most_concrete_extends(sets, memo, TypeView::Path(b));
            } else {
                lemma_most_concrete_of_arguments_extends(sets, memo, list_a, list_b, 0, Seq::empty());
            }
        }
    }
}

pub proof fn lemma_most_concrete_of_arguments_extends(
    sets: SetsView,
    memo: Map<int, TypeView>,
    a: Seq<ArgumentView>,
    b: Seq<ArgumentView>,
    i: int,
    merged: Seq<ArgumentView>,
)
    ensures
        extends(memo, most_concrete_of_arguments(sets, memo, a, b, i, merged).memo),
    decreases 4 * unresolved(sets, memo) + 2, a, a.len() - i,
{
    if i < 0 || i >= a.len() || i >= b.len() {
    } else if a[i] is Type && b[i] is Type {
        lemma_most_concrete_of_pair_extends(sets, memo, a[i]->Type_0, b[i]->Type_0);
        let step = most_concrete_of_pair(sets, memo, a[i]->Type_0, b[i]->Type_0);
        match step.outcome {
            Ok(ty) => {
                if keeps(sets, memo, step.memo) {
                    lemma_most_concrete_of_arguments_extends(
                        sets,
                        step.memo,
                        a,
                        b,
                        i + 1,
                        merged.push(ArgumentView::Type(ty)),
                    );
                }
            },
            Err(_) => {},
        }
    } else if a[i] is Lifetime && b[i] is Lifetime {
        lemma_most_concrete_of_arguments_extends(sets, memo, a, b, i + 1, merged.push(a[i]));
    }
}

/// A merge of two types keeps every note.
pub proof fn lemma_most_concrete_of_pair_keeps(
    sets: SetsView,
    memo: Map<int, TypeView>,
    a: TypeView,
    b: TypeView,
)
    ensures
        keeps(sets, memo, most_concrete_of_pair(sets, memo, a, b).memo),
{
    lemma_most_concrete_of_pair_extends(sets, memo, a, b);
    lemma_unresolved_monotone(
        memo,
        most_concrete_of_pair(sets, memo, a, b).memo,
        sets.sets.len() as int,
    );
}

/// The most concrete form of a type by itself. A placeholder and a trait
/// object give way to what they stand for. `str` and a type parameter are
/// their own most concrete form. A tuple, a reference and a path with
/// generic arguments have their parts brought into their most concrete
/// form, and a reference loses its lifetime. Nothing else has one.
pub open spec fn most_concrete_form(sets: SetsView, memo: Map<int, TypeView>, ty: TypeView) -> Resolved<
    TypeView,
>
    decreases ty, 0int,
{
    if ty is Infer || ty is TraitObject {
        most_concrete(sets, memo, ty)
    } else if ty is PrimitiveStr || ty is TypeParam {
        Resolved { memo, outcome: Ok(ty) }
    } else if ty is Path {
        let path = ty->Path_0;
        if path.segments.len() == 0 {
            Resolved { memo, outcome: Err(InferenceError::InternalInconsistency) }
        } else if path.segments.last().args is Empty {
            Resolved { memo, outcome: Ok(ty) }
        } else if path.segments.last().args is AngleBracketed {
            let each = most_concrete_forms_of_arguments(
                sets,
                memo,
                path.segments.last().args->AngleBracketed_0,
                0,
                Seq::empty(),
            );
            Resolved {
                memo: each.memo,
                outcome: match each.outcome {
                    Ok(arguments) => Ok(TypeView::Path(with_arguments(path, arguments))),
                    Err(error) => Err(error),
                },
            }
        } else {
            Resolved { memo, outcome: Err(InferenceError::UnsupportedConstruct) }
        }
    } else if ty is Tuple {
        let each = most_concrete_forms(sets, memo, ty->Tuple_0, 0, Seq::empty());
        Resolved {
            memo: each.memo,
            outcome: match each.outcome {
                Ok(types) => Ok(TypeView::Tuple(types)),
                Err(error) => Err(error),
            },
        }
    } else if ty is Reference {
        let inner = most_concrete_form(sets, memo, *ty->Reference_inner);
        Resolved {
            memo: inner.memo,
            outcome: match inner.outcome {
                Ok(ty) => Ok(TypeView::Reference { lifetime: None, inner: Box::new(ty) }),
                Err(error) => Err(error),
            },
        }
    } else if ty is ReferenceMut {
        let inner = most_concrete_form(sets, memo, *ty->ReferenceMut_inner);
        Resolved {
            memo: inner.memo,
            outcome: match inner.outcome {
                Ok(ty) => Ok(TypeView::ReferenceMut { lifetime: None, inner: Box::new(ty) }),
                Err(error) => Err(error),
            },
        }
    } else {
        Resolved { memo, outcome: Err(InferenceError::InternalInconsistency) }
    }
}

/// The most concrete forms of the types from place `i` on, behind those
/// that were found before.
pub open spec fn most_concrete_forms(
    sets: SetsView,
    memo: Map<int, TypeView>,
    types: Seq<TypeView>,
    i: int,
    done: Seq<TypeView>,
) -> Resolved<Seq<TypeView>>
    decreases types, types.len() - i,
{
    if i < 0 || i >= types.len() {
        Resolved { memo, outcome: Ok(done) }
    } else {
        let step = most_concrete_form(sets, memo, types[i]);
        match step.outcome {
            Ok(ty) => most_concrete_forms(sets, step.memo, types, i + 1, done.push(ty)),
            Err(error) => Resolved { memo: step.memo, outcome: Err(error) },
        }
    }
}

/// The generic arguments from place `i` on, each type among them in its
/// most concrete form, behind those that were done before.
pub open spec fn most_concrete_forms_of_arguments(
    sets: SetsView,
    memo: Map<int, TypeView>,
    arguments: Seq<ArgumentView>,
    i: int,
    done: Seq<ArgumentView>,
) -> Resolved<Seq<ArgumentView>>
    decreases arguments, arguments.len() - i,
{
    if i < 0 || i >= arguments.len() {
        Resolved { memo, outcome: Ok(done) }
    } else if arguments[i] is Type {
        let step = most_concrete_form(sets, memo, arguments[i]->Type_0);
        match step.outcome {
            Ok(ty) => most_concrete_forms_of_arguments(
                sets,
                step.memo,
                arguments,
                i + 1,
                done.push(ArgumentView::Type(ty)),
            ),
            Err(error) => Resolved { memo: step.memo, outcome: Err(error) },
        }
    } else {
        most_concrete_forms_of_arguments(sets, memo, arguments, i + 1, done.push(arguments[i]))
    }
}

/// The more concrete of a type and itself is the most concrete form of that
/// type: to merge a type with itself adds nothing to it.
pub proof fn law_most_concrete_of_pair_with_itself(
    sets: SetsView,
    memo: Map<int, TypeView>,
    ty: TypeView,
)
    ensures
        most_concrete_of_pair(sets, memo, ty, ty) == most_concrete_form(sets, memo, ty),
    decreases ty, 0int,
{
    if ty is Path {
        let path = ty->Path_0;
        if path.segments.len() > 0 && path.segments.last().args is AngleBracketed {
            lemma_arguments_with_themselves(
                sets,
                memo,
                path.segments.last().args->AngleBracketed_0,
                0,
                Seq::empty(),
            );
        }
        assert(most_concrete_of_pair(sets, memo, ty, ty) == most_concrete_of_paths(
            sets,
            memo,
            path,
            path,
        ));
    } else if ty is Tuple {
        lemma_each_with_itself(sets, memo, ty->Tuple_0, 0, Seq::empty());
    } else if ty is Reference {
        law_most_concrete_of_pair_with_itself(sets, memo, *ty->Reference_inner);
    } else if ty is ReferenceMut {
        law_most_concrete_of_pair_with_itself(sets, memo, *ty->ReferenceMut_inner);
    }
}

/// Whether a type has no parts that resolving looks into: whether it is
/// `str`, a type parameter, or a path whose last segment has no arguments.
pub open spec fn is_plain(ty: TypeView) -> bool {
    ||| ty is PrimitiveStr
    ||| ty is TypeParam
    ||| ty is Path && ty->Path_0.segments.len() > 0 && ty->Path_0.segments.last().args is Empty
}

/// The more concrete of a type and itself is what that type stands for,
/// where the type is a placeholder or a trait object, and where it is a
/// plain type that is in no set.
pub proof fn law_most_concrete_of_pair_with_itself_resolves(
    sets: SetsView,
    memo: Map<int, TypeView>,
    ty: TypeView,
)
    requires
        ty is Infer || ty is TraitObject || (is_plain(ty) && sets.get_set_ref(ty) is None),
    ensures
        most_concrete_of_pair(sets, memo, ty, ty) == most_concrete(sets, memo, ty),
{
    if ty is Path {
        assert(most_concrete_of_pair(sets, memo, ty, ty) == most_concrete_of_paths(
            sets,
            memo,
            ty->Path_0,
            ty->Path_0,
        ));
    }
}

pub proof fn lemma_each_with_itself(
    sets: SetsView,
    memo: Map<int, TypeView>,
    types: Seq<TypeView>,
    i: int,
    done: Seq<TypeView>,
)
    ensures
        most_concrete_of_each(sets, memo, types, types, i, done) == most_concrete_forms(
            sets,
            memo,
            types,
            i,
            done,
        ),
    decreases types, types.len() - i,
{
    if i < 0 || i >= types.len() {
    } else {
        law_most_concrete_of_pair_with_itself(sets, memo, types[i]);
        lemma_most_concrete_of_pair_keeps(sets, memo, types[i], types[i]);
        let step = most_concrete_form(sets, memo, types[i]);
        match step.outcome {
            Ok(ty) => lemma_each_with_itself(sets, step.memo, types, i + 1, done.push(ty)),
            Err(_) => {},
        }
    }
}

pub proof fn lemma_arguments_with_themselves(
    sets: SetsView,
    memo: Map<int, TypeView>,
    arguments: Seq<ArgumentView>,
    i: int,
    done: Seq<ArgumentView>,
)
    ensures
        most_concrete_of_arguments(sets, memo, arguments, arguments, i, done)
            == most_concrete_forms_of_arguments(sets, memo, arguments, i, done),
    decreases arguments, arguments.len() - i,
{
    if i < 0 || i >= arguments.len() {
    } else if arguments[i] is Type {
        law_most_concrete_of_pair_with_itself(sets, memo, arguments[i]->Type_0);
        lemma_most_concrete_of_pair_keeps(sets, memo, arguments[i]->Type_0, arguments[i]->Type_0);
        let step = most_concrete_form(sets, memo, arguments[i]->Type_0);
        match step.outcome {
            Ok(ty) => lemma_arguments_with_themselves(
                sets,
                step.memo,
                arguments,
                i + 1,
                done.push(ArgumentView::Type(ty)),
            ),
            Err(_) => {},
        }
    } else {
        lemma_arguments_with_themselves(sets, memo, arguments, i + 1, done.push(arguments[i]));
    }
}

} // verus!
