//! The most concrete type of an equality set: the one type that stands for
//! all the members of the set.

use crate::equality_sets::{SetsView, TypeEqualitySetRef, TypeEqualitySets};
use crate::error::InferenceError;
use crate::generics::{arguments_view, ArgumentView, GenericArgument};
use crate::path::{
    AngleBracketedGenericArguments, ArgumentsView, Path, PathArguments, PathSegment, PathView,
    SegmentView,
};
use crate::ty::{types_view, Type, TypeNode, TypeView};
use std::collections::BTreeMap;
use vstd::prelude::*;

verus! {

/// The most concrete types found so far, by set. While the members of a set
/// are being merged, the set stands here with a placeholder, so that a set
/// that depends on itself comes to the first concrete type that is reached.
#[derive(Debug)]
pub struct MostConcreteTypeMap {
    map: BTreeMap<usize, TypeNode>,
}

impl MostConcreteTypeMap {
    pub closed spec fn view(&self) -> Map<int, TypeView> {
        Map::new(
            |k: int| 0 <= k <= usize::MAX && self.map@.contains_key(k as usize),
            |k: int| self.map@[k as usize]@,
        )
    }

    pub fn new() -> (res: Self)
        ensures
            res@ == Map::<int, TypeView>::empty(),
    {
        let res = MostConcreteTypeMap { map: BTreeMap::new() };
        assert(res@ =~= Map::<int, TypeView>::empty());
        res
    }

    /// The type noted for a set, if there is one.
    pub fn get(&self, set_ref: TypeEqualitySetRef) -> (res: Option<TypeNode>)
        ensures
            match res {
                Some(node) => self@.contains_key(set_ref.0 as int) && node@ == self@[set_ref.0 as int],
                None => !self@.contains_key(set_ref.0 as int),
            },
    {
        match self.map.get(&set_ref.0) {
            Some(node) => Some(node.clone()),
            None => None,
        }
    }

    /// Whether nothing but the placeholder is noted for a set.
    pub fn is_seeded(&self, set_ref: TypeEqualitySetRef) -> (res: bool)
        ensures
            res == is_seeded(self@, set_ref.0 as int),
    {
        match self.map.get(&set_ref.0) {
            Some(TypeNode::Infer) => true,
            _ => false,
        }
    }

    /// Notes a type for a set, in place of the one that was noted before.
    pub fn insert(&mut self, set_ref: TypeEqualitySetRef, node: TypeNode)
        ensures
            final(self)@ == old(self)@.insert(set_ref.0 as int, node@),
    {
        self.map.insert(set_ref.0, node);
        assert(self@ =~= old(self)@.insert(set_ref.0 as int, node@));
    }
}

/// What resolving came to: the types noted by then, and the type found or
/// the failure that ended it.
pub struct Resolved<T> {
    pub memo: Map<int, TypeView>,
    pub outcome: Result<T, InferenceError>,
}

/// Resolving that came to `value`, with `memo` as what is noted.
pub open spec fn resolved<T>(memo: Map<int, TypeView>, value: T) -> Resolved<T> {
    Resolved { memo, outcome: Ok(value) }
}

/// How many of the first `n` sets have no type noted in `memo`.
pub open spec fn unresolved_below(memo: Map<int, TypeView>, n: int) -> nat
    decreases n,
{
    if n <= 0 {
        0
    } else {
        unresolved_below(memo, n - 1) + if memo.contains_key(n - 1) {
            0nat
        } else {
            1nat
        }
    }
}

/// How many sets of the store have no type noted in `memo`.
pub open spec fn unresolved(sets: SetsView, memo: Map<int, TypeView>) -> nat {
    unresolved_below(memo, sets.sets.len() as int)
}

/// Whether every set that has a type noted in `before` has one in `after`.
pub open spec fn extends(before: Map<int, TypeView>, after: Map<int, TypeView>) -> bool {
    forall|k: int| before.contains_key(k) ==> after.contains_key(k)
}

/// Whether no set has lost its note between `before` and `after`, as far
/// as their number shows. Resolving never forgets a note, so this holds of
/// every step of it.
pub open spec fn keeps(sets: SetsView, before: Map<int, TypeView>, after: Map<int, TypeView>) -> bool {
    unresolved(sets, after) <= unresolved(sets, before)
}

pub proof fn lemma_unresolved_monotone(before: Map<int, TypeView>, after: Map<int, TypeView>, n: int)
    requires
        extends(before, after),
    ensures
        unresolved_below(after, n) <= unresolved_below(before, n),
    decreases n,
{
    if n > 0 {
        lemma_unresolved_monotone(before, after, n - 1);
    }
}

pub proof fn lemma_unresolved_insert(memo: Map<int, TypeView>, set_ref: int, ty: TypeView, n: int)
    requires
        0 <= set_ref < n,
        !memo.contains_key(set_ref),
    ensures
        unresolved_below(memo.insert(set_ref, ty), n) < unresolved_below(memo, n),
    decreases n,
{
    if n - 1 == set_ref {
        lemma_unresolved_monotone(memo, memo.insert(set_ref, ty), n - 1);
    } else {
        lemma_unresolved_insert(memo, set_ref, ty, n - 1);
    }
}

/// Whether nothing but the placeholder is noted for a set, as it is while
/// the members of the set are merged: no concrete type was reached yet.
pub open spec fn is_seeded(memo: Map<int, TypeView>, set_ref: int) -> bool {
    memo.contains_key(set_ref) && memo[set_ref] is Infer
}

/// The type that `ty` stands for: the most concrete type of its set, or
/// `ty` itself where it is in no set. Where only the placeholder is noted
/// for its set, the set depends on itself, and `ty` is the first concrete
/// type reached: it stands for itself.
pub open spec fn most_concrete(sets: SetsView, memo: Map<int, TypeView>, ty: TypeView) -> Resolved<
    TypeView,
>
    decreases 4 * unresolved(sets, memo) + 1, ty, 0int,
{
    match sets.get_set_ref(ty) {
        Some(set_ref) => if is_seeded(memo, set_ref) {
            Resolved { memo, outcome: Ok(ty) }
        } else {
            most_concrete_of_set(sets, memo, set_ref)
        },
        None => Resolved { memo, outcome: Ok(ty) },
    }
}

/// The most concrete type of a set: the type noted for it or, where none
/// is, the merge of its members, oldest first, which is then noted. While
/// the members are merged the placeholder is noted for the set, so that a
/// member that is looked up meanwhile stands for itself.
pub open spec fn most_concrete_of_set(sets: SetsView, memo: Map<int, TypeView>, set_ref: int) -> Resolved<
    TypeView,
>
    decreases 4 * unresolved(sets, memo), TypeView::Infer, 0int,
{
    if memo.contains_key(set_ref) {
        Resolved { memo, outcome: Ok(memo[set_ref]) }
    } else if !(0 <= set_ref < sets.sets.len()) || sets.sets[set_ref].len() == 0 {
        Resolved { memo, outcome: Err(InferenceError::InternalInconsistency) }
    } else {
        let members = sets.sets[set_ref];
        let seeded = memo.insert(set_ref, TypeView::Infer);
        proof {
            lemma_unresolved_insert(memo, set_ref, TypeView::Infer, sets.sets.len() as int);
        }
        let merged = merge_members(sets, seeded, members, 1, members[0]);
        match merged.outcome {
            Ok(ty) => Resolved { memo: merged.memo.insert(set_ref, ty), outcome: Ok(ty) },
            Err(_) => merged,
        }
    }
}

/// The merge of `current` with the members from place `i` on, one by one.
pub open spec fn merge_members(
    sets: SetsView,
    memo: Map<int, TypeView>,
    members: Seq<TypeView>,
    i: int,
    current: TypeView,
) -> Resolved<TypeView>
    decreases 4 * unresolved(sets, memo) + 3, TypeView::Infer, members.len() - i,
{
    if i < 0 || i >= members.len() {
        Resolved { memo, outcome: Ok(current) }
    } else {
        let step = most_concrete_of_pair(sets, memo, current, members[i]);
        match step.outcome {
            Ok(ty) => if keeps(sets, memo, step.memo) {
                merge_members(sets, step.memo, members, i + 1, ty)
            } else {
                Resolved { memo: step.memo, outcome: Err(InferenceError::InternalInconsistency) }
            },
            Err(_) => step,
        }
    }
}

/// The type with the smaller identity.
pub open spec fn smaller_param(a: TypeView, b: TypeView) -> TypeView {
    if a->TypeParam_0.0 < b->TypeParam_0.0 {
        a
    } else {
        b
    }
}

/// The more concrete of two types that are known to be equal.
///
/// A placeholder gives way to what the other type stands for. `str` wins
/// over anything. Two paths are merged; a path wins over anything else, and
/// is resolved. Two tuples of one length, and two references of one kind,
/// are merged part by part; a merged reference has no lifetime. A trait
/// object gives way to what the other type stands for. Of two type
/// parameters the one with the smaller identity wins. No other two types
/// can be equal.
pub open spec fn most_concrete_of_pair(
    sets: SetsView,
    memo: Map<int, TypeView>,
    a: TypeView,
    b: TypeView,
) -> Resolved<TypeView>
    decreases 4 * unresolved(sets, memo) + 2, a, 0int,
{
    if a is Infer {
        most_concrete(sets, memo, b)
    } else if b is Infer {
        most_concrete(sets, memo, a)
    } else if a is PrimitiveStr || b is PrimitiveStr {
        Resolved { memo, outcome: Ok(TypeView::PrimitiveStr) }
    } else if a is Path && b is Path {
        most_concrete_of_paths(sets, memo, a->Path_0, b->Path_0)
    } else if a is Path {
        most_concrete(sets, memo, a)
    } else if b is Path {
        most_concrete(sets, memo, b)
    } else if a is Tuple && b is Tuple {
        if a->Tuple_0.len() == b->Tuple_0.len() {
            let each = most_concrete_of_each(sets, memo, a->Tuple_0, b->Tuple_0, 0, Seq::empty());
            Resolved {
                memo: each.memo,
                outcome: match each.outcome {
                    Ok(types) => Ok(TypeView::Tuple(types)),
                    Err(error) => Err(error),
                },
            }
        } else {
            Resolved { memo, outcome: Err(InferenceError::ArityMismatch) }
        }
    } else if a is Reference && b is Reference {
        let inner = most_concrete_of_pair(sets, memo, *a->Reference_inner, *b->Reference_inner);
        Resolved {
            memo: inner.memo,
            outcome: match inner.outcome {
                Ok(ty) => Ok(TypeView::Reference { lifetime: None, inner: Box::new(ty) }),
                Err(error) => Err(error),
            },
        }
    } else if a is ReferenceMut && b is ReferenceMut {
        let inner = most_concrete_of_pair(
            sets,
            memo,
            *a->ReferenceMut_inner,
            *b->ReferenceMut_inner,
        );
        Resolved {
            memo: inner.memo,
            outcome: match inner.outcome {
                Ok(ty) => Ok(TypeView::ReferenceMut { lifetime: None, inner: Box::new(ty) }),
                Err(error) => Err(error),
            },
        }
    } else if a is TraitObject {
        most_concrete(sets, memo, b)
    } else if b is TraitObject {
        most_concrete(sets, memo, a)
    } else if a is TypeParam && b is TypeParam {
        Resolved { memo, outcome: Ok(smaller_param(a, b)) }
    } else {
        Resolved { memo, outcome: Err(InferenceError::InternalInconsistency) }
    }
}

/// The merges of the types of `a` and `b` from place `i` on, pair by pair,
/// behind those that were merged before.
pub open spec fn most_concrete_of_each(
    sets: SetsView,
    memo: Map<int, TypeView>,
    a: Seq<TypeView>,
    b: Seq<TypeView>,
    i: int,
    merged: Seq<TypeView>,
) -> Resolved<Seq<TypeView>>
    decreases 4 * unresolved(sets, memo) + 2, a, a.len() - i,
{
    if i < 0 || i >= a.len() || i >= b.len() {
        Resolved { memo, outcome: Ok(merged) }
    } else {
        let step = most_concrete_of_pair(sets, memo, a[i], b[i]);
        match step.outcome {
            Ok(ty) => if keeps(sets, memo, step.memo) {
                most_concrete_of_each(sets, step.memo, a, b, i + 1, merged.push(ty))
            } else {
                Resolved { memo: step.memo, outcome: Err(InferenceError::InternalInconsistency) }
            },
            Err(error) => Resolved { memo: step.memo, outcome: Err(error) },
        }
    }
}

/// A path with other generic arguments behind its last segment.
pub open spec fn with_arguments(path: PathView, arguments: Seq<ArgumentView>) -> PathView {
    PathView {
        global: path.global,
        segments: path.segments.update(
            path.segments.len() - 1,
            SegmentView {
                ident: path.segments.last().ident,
                args: ArgumentsView::AngleBracketed(arguments),
            },
        ),
    }
}

/// Whether, of two paths with as many generic arguments, the first takes the
/// merged arguments: whether it is global or, where neither path is, has
/// fewer segments. Where both are global the first takes them; where both
/// are local and as long, the second.
pub open spec fn takes_arguments(a: PathView, b: PathView) -> bool {
    a.global || (!b.global && a.segments.len() < b.segments.len())
}

/// The more concrete of two paths that are known to name one type.
///
/// A path without generic arguments wins: it is taken for an alias of the
/// other. Of two paths with different numbers of arguments the one with
/// fewer wins, and is resolved. Where both have as many, the arguments are
/// merged pair by pair, and the merged arguments stand behind the path that
/// is global or, where neither is, behind the one with fewer segments.
pub open spec fn most_concrete_of_paths(
    sets: SetsView,
    memo: Map<int, TypeView>,
    a: PathView,
    b: PathView,
) -> Resolved<TypeView>
    decreases 4 * unresolved(sets, memo) + 2, a, 0int,
{
    if a.segments.len() == 0 || b.segments.len() == 0 {
        Resolved { memo, outcome: Err(InferenceError::InternalInconsistency) }
    } else {
        let args_a = a.segments.last().args;
        let args_b = b.segments.last().args;
        if args_a is Empty {
            Resolved { memo, outcome: Ok(TypeView::Path(a)) }
        } else if args_b is Empty {
            Resolved { memo, outcome: Ok(TypeView::Path(b)) }
        } else if args_a is AngleBracketed && args_b is AngleBracketed {
            let list_a = args_a->AngleBracketed_0;
            let list_b = args_b->AngleBracketed_0;
            if list_a.len() < list_b.len() {
                most_concrete(sets, memo, TypeView::Path(a))
            } else if list_a.len() > list_b.len() {
                most_concrete(sets, memo, TypeView::Path(b))
            } else {
                let each = most_concrete_of_arguments(sets, memo, list_a, list_b, 0, Seq::empty());
                Resolved {
                    memo: each.memo,
                    outcome: match each.outcome {
                        Ok(arguments) => Ok(
                            TypeView::Path(
                                if takes_arguments(a, b) {
                                    with_arguments(a, arguments)
                                } else {
                                    with_arguments(b, arguments)
                                },
                            ),
                        ),
                        Err(error) => Err(error),
                    },
                }
            }
        } else {
            Resolved { memo, outcome: Err(InferenceError::UnsupportedConstruct) }
        }
    }
}

/// The merges of the generic arguments of `a` and `b` from place `i` on,
/// pair by pair, behind those that were merged before. Two types are
/// merged; of two lifetimes the first is kept.
pub open spec fn most_concrete_of_arguments(
    sets: SetsView,
    memo: Map<int, TypeView>,
    a: Seq<ArgumentView>,
    b: Seq<ArgumentView>,
    i: int,
    merged: Seq<ArgumentView>,
) -> Resolved<Seq<ArgumentView>>
    decreases 4 * unresolved(sets, memo) + 2, a, a.len() - i,
{
    if i < 0 || i >= a.len() || i >= b.len() {
        Resolved { memo, outcome: Ok(merged) }
    } else if a[i] is Type && b[i] is Type {
        let step = most_concrete_of_pair(sets, memo, a[i]->Type_0, b[i]->Type_0);
        match step.outcome {
            Ok(ty) => if keeps(sets, memo, step.memo) {
                most_concrete_of_arguments(
                    sets,
                    step.memo,
                    a,
                    b,
                    i + 1,
                    merged.push(ArgumentView::Type(ty)),
                )
            } else {
                Resolved { memo: step.memo, outcome: Err(InferenceError::InternalInconsistency) }
            },
            Err(error) => Resolved { memo: step.memo, outcome: Err(error) },
        }
    } else if a[i] is Lifetime && b[i] is Lifetime {
        most_concrete_of_arguments(sets, memo, a, b, i + 1, merged.push(a[i]))
    } else {
        Resolved { memo, outcome: Err(InferenceError::UnsupportedConstruct) }
    }
}

/// Whether a noted map and a result are what resolving came to.
pub open spec fn resolved_to(
    resolved: Resolved<TypeView>,
    memo: Map<int, TypeView>,
    res: Result<TypeNode, InferenceError>,
) -> bool {
    &&& resolved.memo == memo
    &&& match res {
        Ok(node) => resolved.outcome == Ok::<TypeView, InferenceError>(node@),
        Err(error) => resolved.outcome == Err::<TypeView, InferenceError>(error),
    }
}

impl TypeEqualitySetRef {
    /// The most concrete type of the set: the one noted for it or, where
    /// none is, the merge of its members, which is then noted.
    #[verifier::loop_isolation(false)]
    pub fn make_most_concrete(
        &self,
        most_concrete_type_map: &mut MostConcreteTypeMap,
        type_equality_sets: &TypeEqualitySets,
    ) -> (res: Result<TypeNode, InferenceError>)
        ensures
            resolved_to(
                most_concrete_of_set(
                    type_equality_sets@,
                    old(most_concrete_type_map)@,
                    self.0 as int,
                ),
                final(most_concrete_type_map)@,
                res,
            ),
            extends(old(most_concrete_type_map)@, final(most_concrete_type_map)@),
        decreases 4 * unresolved(type_equality_sets@, old(most_concrete_type_map)@), TypeView::Infer, 0int,
    {
        match most_concrete_type_map.get(*self) {
            Some(node) => {
                return Ok(node);
            },
            None => {},
        }
        if self.0 >= type_equality_sets.len() {
            return Err(InferenceError::InternalInconsistency);
        }
        let set = type_equality_sets.members(*self);
        if set.len() == 0 {
            return Err(InferenceError::InternalInconsistency);
        }
        let ghost sets = type_equality_sets@;
        let ghost members = sets.sets[self.0 as int];
        most_concrete_type_map.insert(*self, TypeNode::Infer);
        let ghost seeded = most_concrete_type_map@;
        proof {
            lemma_unresolved_insert(
                old(most_concrete_type_map)@,
                self.0 as int,
                TypeView::Infer,
                sets.sets.len() as int,
            );
        }
        let mut current = set.get(0).clone().0;
        let ghost goal = merge_members(sets, seeded, members, 1, current@);
        let mut i: usize = 1;
        while i < set.len()
            invariant
                1 <= i <= set@.len(),
                set@ == members,
                extends(seeded, most_concrete_type_map@),
                merge_members(sets, most_concrete_type_map@, members, i as int, current@) == goal,
            decreases set@.len() - i,
        {
            let ghost before = most_concrete_type_map@;
            proof {
                lemma_unresolved_monotone(seeded, before, sets.sets.len() as int);
            }
            match TypeNode::make_most_concrete_from_pair(
                current,
                set.get(i).clone().0,
                most_concrete_type_map,
                type_equality_sets,
            ) {
                Ok(node) => {
                    current = node;
                },
                Err(error) => {
                    return Err(error);
                },
            }
            proof {
                lemma_unresolved_monotone(before, most_concrete_type_map@, sets.sets.len() as int);
            }
            i += 1;
        }
        most_concrete_type_map.insert(*self, current.clone());
        Ok(current)
    }
}

impl TypeNode {
    /// The type that this one stands for: the most concrete type of its
    /// set, or the type itself where it is in no set, or in a set that is
    /// being merged and has only the placeholder noted.
    pub fn make_most_concrete(
        self,
        most_concrete_type_map: &mut MostConcreteTypeMap,
        type_equality_sets: &TypeEqualitySets,
    ) -> (res: Result<TypeNode, InferenceError>)
        ensures
            resolved_to(
                most_concrete(type_equality_sets@, old(most_concrete_type_map)@, self@),
                final(most_concrete_type_map)@,
                res,
            ),
            extends(old(most_concrete_type_map)@, final(most_concrete_type_map)@),
        decreases 4 * unresolved(type_equality_sets@, old(most_concrete_type_map)@) + 1, self@, 0int,
    {
        let ty = Type(self);
        match type_equality_sets.get_set_ref(&ty) {
            Some(set) => {
                if most_concrete_type_map.is_seeded(set) {
                    Ok(ty.0)
                } else {
                    set.make_most_concrete(most_concrete_type_map, type_equality_sets)
                }
            },
            None => Ok(ty.0),
        }
    }

    /// The more concrete of two types that are known to be equal.
    #[verifier::loop_isolation(false)]
    pub fn make_most_concrete_from_pair(
        ty1: TypeNode,
        ty2: TypeNode,
        most_concrete_type_map: &mut MostConcreteTypeMap,
        type_equality_sets: &TypeEqualitySets,
    ) -> (res: Result<TypeNode, InferenceError>)
        ensures
            resolved_to(
                most_concrete_of_pair(
                    type_equality_sets@,
                    old(most_concrete_type_map)@,
                    ty1@,
                    ty2@,
                ),
                final(most_concrete_type_map)@,
                res,
            ),
            extends(old(most_concrete_type_map)@, final(most_concrete_type_map)@),
        decreases 4 * unresolved(type_equality_sets@, old(most_concrete_type_map)@) + 2, ty1@, 0int,
    {
        let ghost sets = type_equality_sets@;
        let ghost start = most_concrete_type_map@;
        let ghost view1 = ty1@;
        let ghost view2 = ty2@;
        match (ty1, ty2) {
            (TypeNode::Infer, node) => node.make_most_concrete(
                most_concrete_type_map,
                type_equality_sets,
            ),
            (node, TypeNode::Infer) => node.make_most_concrete(
                most_concrete_type_map,
                type_equality_sets,
            ),
            (TypeNode::PrimitiveStr, _) => Ok(TypeNode::PrimitiveStr),
            (_, TypeNode::PrimitiveStr) => Ok(TypeNode::PrimitiveStr),
            (TypeNode::Path(path1), TypeNode::Path(path2)) => Path::make_most_concrete_from_pair(
                path1,
                path2,
                most_concrete_type_map,
                type_equality_sets,
            ),
            (TypeNode::Path(path), _) => TypeNode::Path(path).make_most_concrete(
                most_concrete_type_map,
                type_equality_sets,
            ),
            (_, TypeNode::Path(path)) => TypeNode::Path(path).make_most_concrete(
                most_concrete_type_map,
                type_equality_sets,
            ),
            (TypeNode::Tuple(types1), TypeNode::Tuple(types2)) => {
                assert(view1 == TypeView::Tuple(types_view(types1@)));
                assert(types_view(types1@).len() == types1@.len());
                assert(view2 == TypeView::Tuple(types_view(types2@)));
                if types1.len() != types2.len() {
                    return Err(InferenceError::ArityMismatch);
                }
                let ghost a = types_view(types1@);
                let ghost b = types_view(types2@);
                let ghost goal = most_concrete_of_each(sets, start, a, b, 0, Seq::empty());
                let mut merged: Vec<Type> = Vec::new();
                let mut i: usize = 0;
                assert(types_view(merged@) =~= Seq::<TypeView>::empty());
                while i < types1.len()
                    invariant
                        i <= types1.len(),
                        extends(start, most_concrete_type_map@),
                        most_concrete_of_each(
                            sets,
                            most_concrete_type_map@,
                            a,
                            b,
                            i as int,
                            types_view(merged@),
                        ) == goal,
                    decreases types1.len() - i,
                {
                    let ghost before = most_concrete_type_map@;
                    let ghost so_far = types_view(merged@);
                    proof {
                        lemma_unresolved_monotone(start, before, sets.sets.len() as int);
                    }
                    match TypeNode::make_most_concrete_from_pair(
                        types1[i].clone().0,
                        types2[i].clone().0,
                        most_concrete_type_map,
                        type_equality_sets,
                    ) {
                        Ok(node) => {
                            merged.push(Type(node));
                            assert(types_view(merged@) =~= so_far.push(node@));
                        },
                        Err(error) => {
                            return Err(error);
                        },
                    }
                    proof {
                        lemma_unresolved_monotone(before, most_concrete_type_map@, sets.sets.len() as int);
                    }
                    i += 1;
                }
                Ok(TypeNode::Tuple(merged))
            },
            (TypeNode::Reference { inner: inner1, .. }, TypeNode::Reference { inner: inner2, .. }) => {
                match TypeNode::make_most_concrete_from_pair(
                    *inner1,
                    *inner2,
                    most_concrete_type_map,
                    type_equality_sets,
                ) {
                    Ok(node) => Ok(TypeNode::Reference { inner: Box::new(node), lifetime: None }),
                    Err(error) => Err(error),
                }
            },
            (
                TypeNode::ReferenceMut { inner: inner1, .. },
                TypeNode::ReferenceMut { inner: inner2, .. },
            ) => {
                match TypeNode::make_most_concrete_from_pair(
                    *inner1,
                    *inner2,
                    most_concrete_type_map,
                    type_equality_sets,
                ) {
                    Ok(node) => Ok(TypeNode::ReferenceMut { inner: Box::new(node), lifetime: None }),
                    Err(error) => Err(error),
                }
            },
            (TypeNode::TraitObject(_), node) => node.make_most_concrete(
                most_concrete_type_map,
                type_equality_sets,
            ),
            (node, TypeNode::TraitObject(_)) => node.make_most_concrete(
                most_concrete_type_map,
                type_equality_sets,
            ),
            (TypeNode::TypeParam(ref1), TypeNode::TypeParam(ref2)) => {
                if ref1.0 < ref2.0 {
                    Ok(TypeNode::TypeParam(ref1))
                } else {
                    Ok(TypeNode::TypeParam(ref2))
                }
            },
            _ => Err(InferenceError::InternalInconsistency),
        }
    }
}

impl Path {
    /// The more concrete of two paths that are known to name one type.
    #[verifier::loop_isolation(false)]
    pub fn make_most_concrete_from_pair(
        path1: Path,
        path2: Path,
        most_concrete_type_map: &mut MostConcreteTypeMap,
        type_equality_sets: &TypeEqualitySets,
    ) -> (res: Result<TypeNode, InferenceError>)
        ensures
            resolved_to(
                most_concrete_of_paths(
                    type_equality_sets@,
                    old(most_concrete_type_map)@,
                    path1@,
                    path2@,
                ),
                final(most_concrete_type_map)@,
                res,
            ),
            extends(old(most_concrete_type_map)@, final(most_concrete_type_map)@),
        decreases 4 * unresolved(type_equality_sets@, old(most_concrete_type_map)@) + 2, path1@, 0int,
    {
        let ghost sets = type_equality_sets@;
        let ghost start = most_concrete_type_map@;
        let mut path1 = path1;
        let mut path2 = path2;
        let path1_len = path1.path.len();
        let path2_len = path2.path.len();
        if path1_len == 0 || path2_len == 0 {
            return Err(InferenceError::InternalInconsistency);
        }
        let ghost view1 = path1@;
        let ghost view2 = path2@;
        assert(view1.segments.last() == path1.path@[path1_len - 1]@);
        assert(view2.segments.last() == path2.path@[path2_len - 1]@);
        let args = match (&path1.path[path1_len - 1].args, &path2.path[path2_len - 1].args) {
            // Assume the path with the fewest arguments is the most concrete
            // since it is likely a type alias of the type with more arguments
            (PathArguments::Empty, _) => {
                return Ok(TypeNode::Path(path1));
            },
            (_, PathArguments::Empty) => {
                return Ok(TypeNode::Path(path2));
            },
            (PathArguments::AngleBracketed(args1), PathArguments::AngleBracketed(args2)) => {
                if args1.args.len() < args2.args.len() {
                    return TypeNode::Path(path1).make_most_concrete(
                        most_concrete_type_map,
                        type_equality_sets,
                    );
                } else if args1.args.len() > args2.args.len() {
                    return TypeNode::Path(path2).make_most_concrete(
                        most_concrete_type_map,
                        type_equality_sets,
                    );
                }
                // Assume we are dealing with the same type path
                let ghost a = args1@;
                let ghost b = args2@;
                let ghost goal = most_concrete_of_arguments(sets, start, a, b, 0, Seq::empty());
                let mut merged: Vec<GenericArgument> = Vec::new();
                let mut i: usize = 0;
                assert(arguments_view(merged@) =~= Seq::<ArgumentView>::empty());
                while i < args1.args.len()
                    invariant
                        i <= args1.args.len(),
                        extends(start, most_concrete_type_map@),
                        most_concrete_of_arguments(
                            sets,
                            most_concrete_type_map@,
                            a,
                            b,
                            i as int,
                            arguments_view(merged@),
                        ) == goal,
                    decreases args1.args.len() - i,
                {
                    let ghost before = most_concrete_type_map@;
                    let ghost so_far = arguments_view(merged@);
                    assert(a[i as int] == args1.args@[i as int]@);
                    assert(b[i as int] == args2.args@[i as int]@);
                    proof {
                        lemma_unresolved_monotone(start, before, sets.sets.len() as int);
                    }
                    match (&args1.args[i], &args2.args[i]) {
                        (GenericArgument::Type(ty1), GenericArgument::Type(ty2)) => {
                            match TypeNode::make_most_concrete_from_pair(
                                ty1.clone().0,
                                ty2.clone().0,
                                most_concrete_type_map,
                                type_equality_sets,
                            ) {
                                Ok(node) => {
                                    merged.push(GenericArgument::Type(Type(node)));
                                    assert(arguments_view(merged@) =~= so_far.push(
                                        ArgumentView::Type(node@),
                                    ));
                                },
                                Err(error) => {
                                    return Err(error);
                                },
                            }
                        },
                        (
                            GenericArgument::Lifetime(lifetime_ref1),
                            GenericArgument::Lifetime(_),
                        ) => {
                            merged.push(GenericArgument::Lifetime(*lifetime_ref1));
                            assert(arguments_view(merged@) =~= so_far.push(a[i as int]));
                        },
                        _ => {
                            return Err(InferenceError::UnsupportedConstruct);
                        },
                    }
                    proof {
                        lemma_unresolved_monotone(before, most_concrete_type_map@, sets.sets.len() as int);
                    }
                    i += 1;
                }
                merged
            },
            _ => {
                return Err(InferenceError::UnsupportedConstruct);
            },
        };
        if path1.global || (!path2.global && path1_len < path2_len) {
            Ok(TypeNode::Path(replace_arguments(path1, args)))
        } else {
            Ok(TypeNode::Path(replace_arguments(path2, args)))
        }
    }
}

/// Puts other generic arguments behind the last segment of a path.
pub(crate) fn replace_arguments(path: Path, args: Vec<GenericArgument>) -> (res: Path)
    requires
        path@.segments.len() > 0,
    ensures
        res@ == with_arguments(path@, arguments_view(args@)),
{
    let mut path = path;
    let ghost before = path@;
    match path.path.pop() {
        Some(segment) => {
            assert(before.segments.last() == segment@);
            path.path.push(
                PathSegment {
                    ident: segment.ident,
                    args: PathArguments::AngleBracketed(AngleBracketedGenericArguments { args }),
                },
            );
            assert(path@.segments =~= with_arguments(before, arguments_view(args@)).segments);
            path
        },
        None => path,
    }
}

} // verus!
