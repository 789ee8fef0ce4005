//! The store of equality sets: which types are known to be equal because a
//! value of one was handed to a place that expects the other.

use crate::error::InferenceError;
use crate::generics::{
    clone_bounds, constraints_view, ArgumentView, BoundView, ConstraintView, GenericArgument,
    GenericConstraint, PredicateType, TypeParamBound,
};
use crate::path::{Path, PathArguments, PathView};
use crate::ty::{types_view, Type, TypeNode, TypeView};
use crate::laws::{lemma_unify_grows, lemma_unify_inner_grows, lemma_unify_path_arguments_grows};
use vstd::prelude::*;

verus! {

/// A sequence with `x` added at its end, unless it holds `x` already.
pub open spec fn insert_unique<T>(s: Seq<T>, x: T) -> Seq<T> {
    if s.contains(x) {
        s
    } else {
        s.push(x)
    }
}

/// A set of types that are considered to be equal. It keeps its members in
/// the order in which they came.
#[derive(Debug)]
pub struct TypeEqualitySet {
    set: Vec<Type>,
}

impl TypeEqualitySet {
    /// The members, oldest first.
    pub closed spec fn view(&self) -> Seq<TypeView> {
        types_view(self.set@)
    }

    pub fn new() -> (res: Self)
        ensures
            res@ == Seq::<TypeView>::empty(),
    {
        let res = TypeEqualitySet { set: Vec::new() };
        assert(res@ =~= Seq::<TypeView>::empty());
        res
    }

    pub fn len(&self) -> (res: usize)
        ensures
            res == self@.len(),
    {
        self.set.len()
    }

    pub fn get(&self, index: usize) -> (res: &Type)
        requires
            index < self@.len(),
        ensures
            res@ == self@[index as int],
    {
        &self.set[index]
    }

    pub fn contains(&self, ty: &Type) -> (res: bool)
        ensures
            res == self@.contains(ty@),
    {
        let mut i: usize = 0;
        while i < self.set.len()
            invariant
                i <= self.set.len(),
                forall|j: int| 0 <= j < i ==> self@[j] != ty@,
            decreases self.set.len() - i,
        {
            if self.set[i] == *ty {
                assert(self@[i as int] == ty@);
                return true;
            }
            i += 1;
        }
        false
    }

    /// Adds a type; says whether it was new.
    pub fn insert(&mut self, ty: Type) -> (res: bool)
        ensures
            res == !old(self)@.contains(ty@),
            final(self)@ == insert_unique(old(self)@, ty@),
    {
        if self.contains(&ty) {
            false
        } else {
            self.set.push(ty);
            assert(self@ =~= old(self)@.push(ty@));
            true
        }
    }
}

/// The constraints gathered so far, each one once, in the order in which
/// they came.
#[derive(Debug)]
pub struct ConstraintSet {
    set: Vec<GenericConstraint>,
}

impl ConstraintSet {
    /// The constraints, oldest first.
    pub closed spec fn view(&self) -> Seq<ConstraintView> {
        constraints_view(self.set@)
    }

    pub fn new() -> (res: Self)
        ensures
            res@ == Seq::<ConstraintView>::empty(),
    {
        let res = ConstraintSet { set: Vec::new() };
        assert(res@ =~= Seq::<ConstraintView>::empty());
        res
    }

    pub fn len(&self) -> (res: usize)
        ensures
            res == self@.len(),
    {
        self.set.len()
    }

    pub fn get(&self, index: usize) -> (res: &GenericConstraint)
        requires
            index < self@.len(),
        ensures
            res@ == self@[index as int],
    {
        &self.set[index]
    }

    pub fn contains(&self, constraint: &GenericConstraint) -> (res: bool)
        ensures
            res == self@.contains(constraint@),
    {
        let mut i: usize = 0;
        while i < self.set.len()
            invariant
                i <= self.set.len(),
                forall|j: int| 0 <= j < i ==> self@[j] != constraint@,
            decreases self.set.len() - i,
        {
            if self.set[i] == *constraint {
                assert(self@[i as int] == constraint@);
                return true;
            }
            i += 1;
        }
        false
    }

    /// Adds a constraint; says whether it was new.
    pub fn insert(&mut self, constraint: GenericConstraint) -> (res: bool)
        ensures
            res == !old(self)@.contains(constraint@),
            final(self)@ == insert_unique(old(self)@, constraint@),
    {
        if self.contains(&constraint) {
            false
        } else {
            self.set.push(constraint);
            assert(self@ =~= old(self)@.push(constraint@));
            true
        }
    }
}

/// The place of an equality set in its store.
#[derive(Debug, Clone, Copy, PartialEq, Eq, Structural, PartialOrd, Ord, Hash)]
pub struct TypeEqualitySetRef(pub usize);

/// A mapping between types and their sets of equal types.
#[derive(Debug)]
pub struct TypeEqualitySets {
    set_map: Vec<(Type, TypeEqualitySetRef)>,
    sets: Vec<TypeEqualitySet>,
}

/// What a store of equality sets holds.
pub struct SetsView {
    /// The set that each known type belongs to.
    pub map: Map<TypeView, int>,
    /// The sets, each with its members, oldest first.
    pub sets: Seq<Seq<TypeView>>,
}

/// The map that a list of entries stands for: of two entries for one type
/// the earlier one counts.
pub open spec fn entries_map(s: Seq<(Type, TypeEqualitySetRef)>) -> Map<TypeView, int>
    decreases s.len(),
{
    if s.len() == 0 {
        Map::empty()
    } else {
        entries_map(s.drop_first()).insert(s[0].0@, s[0].1.0 as int)
    }
}

proof fn lemma_entries_absent(s: Seq<(Type, TypeEqualitySetRef)>, key: TypeView)
    requires
        forall|j: int| 0 <= j < s.len() ==> (#[trigger] s[j]).0@ != key,
    ensures
        !entries_map(s).contains_key(key),
    decreases s.len(),
{
    if s.len() > 0 {
        assert(s[0].0@ != key);
        assert forall|j: int| 0 <= j < s.drop_first().len() implies (#[trigger] s.drop_first()[j]).0@
            != key by {
            assert(s.drop_first()[j] == s[j + 1]);
        }
        lemma_entries_absent(s.drop_first(), key);
    }
}

proof fn lemma_entries_first(s: Seq<(Type, TypeEqualitySetRef)>, i: int, key: TypeView)
    requires
        0 <= i < s.len(),
        s[i].0@ == key,
        forall|j: int| 0 <= j < i ==> (#[trigger] s[j]).0@ != key,
    ensures
        entries_map(s).contains_key(key),
        entries_map(s)[key] == s[i].1.0,
    decreases s.len(),
{
    if i > 0 {
        assert(s[0].0@ != key);
        assert forall|j: int| 0 <= j < i - 1 implies (#[trigger] s.drop_first()[j]).0@ != key by {
            assert(s.drop_first()[j] == s[j + 1]);
        }
        assert(s.drop_first()[i - 1] == s[i]);
        lemma_entries_first(s.drop_first(), i - 1, key);
    }
}

proof fn lemma_entries_update(
    s: Seq<(Type, TypeEqualitySetRef)>,
    i: int,
    entry: (Type, TypeEqualitySetRef),
)
    requires
        0 <= i < s.len(),
        s[i].0@ == entry.0@,
        forall|j: int| 0 <= j < i ==> (#[trigger] s[j]).0@ != entry.0@,
    ensures
        entries_map(s.update(i, entry)) == entries_map(s).insert(entry.0@, entry.1.0 as int),
    decreases s.len(),
{
    let t = s.update(i, entry);
    if i == 0 {
        assert(t.drop_first() =~= s.drop_first());
        assert(entries_map(t) =~= entries_map(s).insert(entry.0@, entry.1.0 as int));
    } else {
        assert(s[0].0@ != entry.0@);
        assert forall|j: int| 0 <= j < i - 1 implies (#[trigger] s.drop_first()[j]).0@
            != entry.0@ by {
            assert(s.drop_first()[j] == s[j + 1]);
        }
        assert(s.drop_first()[i - 1] == s[i]);
        lemma_entries_update(s.drop_first(), i - 1, entry);
        assert(t.drop_first() =~= s.drop_first().update(i - 1, entry));
        assert(entries_map(t) =~= entries_map(s).insert(entry.0@, entry.1.0 as int));
    }
}

proof fn lemma_entries_push(s: Seq<(Type, TypeEqualitySetRef)>, entry: (Type, TypeEqualitySetRef))
    requires
        forall|j: int| 0 <= j < s.len() ==> (#[trigger] s[j]).0@ != entry.0@,
    ensures
        entries_map(s.push(entry)) == entries_map(s).insert(entry.0@, entry.1.0 as int),
    decreases s.len(),
{
    let t = s.push(entry);
    if s.len() == 0 {
        assert(t.drop_first() =~= s);
        assert(entries_map(t) =~= entries_map(s).insert(entry.0@, entry.1.0 as int));
    } else {
        assert(s[0].0@ != entry.0@);
        assert forall|j: int| 0 <= j < s.drop_first().len() implies (#[trigger] s.drop_first()[j]).0@
            != entry.0@ by {
            assert(s.drop_first()[j] == s[j + 1]);
        }
        lemma_entries_push(s.drop_first(), entry);
        assert(t.drop_first() =~= s.drop_first().push(entry));
        assert(entries_map(t) =~= entries_map(s).insert(entry.0@, entry.1.0 as int));
    }
}

impl SetsView {
    /// Whether the store is well formed: whether every known type is a
    /// member of its set, which is a set that the store has, and no set is
    /// empty.
    pub open spec fn wf(self) -> bool {
        &&& forall|ty: TypeView|
            self.map.contains_key(ty) ==> 0 <= #[trigger] self.map[ty] < self.sets.len()
        &&& forall|ty: TypeView| #[trigger]
            self.map.contains_key(ty) ==> self.sets[self.map[ty]].contains(ty)
        &&& forall|set_ref: int|
            0 <= set_ref < self.sets.len() ==> (#[trigger] self.sets[set_ref]).len() > 0
    }

    /// The set that a type belongs to, if it is known.
    pub open spec fn get_set_ref(self, ty: TypeView) -> Option<int> {
        if self.map.contains_key(ty) {
            Some(self.map[ty])
        } else {
            None
        }
    }

    /// The store with one more set, which holds `ty` alone and is the set of `ty`.
    pub open spec fn new_set(self, ty: TypeView) -> SetsView {
        SetsView { map: self.map.insert(ty, self.sets.len() as int), sets: self.sets.push(seq![ty]) }
    }

    /// The store in which `ty` is a member of the set at `set_ref`, and that
    /// set is the set of `ty`. Its other sets keep `ty` if they had it.
    pub open spec fn add_member(self, set_ref: int, ty: TypeView) -> SetsView {
        SetsView {
            map: self.map.insert(ty, set_ref),
            sets: self.sets.update(set_ref, insert_unique(self.sets[set_ref], ty)),
        }
    }

    /// The store with one more set, which holds `first` and `second` and is
    /// the set of both.
    pub open spec fn new_pair(self, first: TypeView, second: TypeView) -> SetsView {
        SetsView {
            map: self.map.insert(first, self.sets.len() as int).insert(
                second,
                self.sets.len() as int,
            ),
            sets: self.sets.push(insert_unique(seq![first], second)),
        }
    }
}

/// A sequence that a value was added to holds that value, and all that it
/// held before.
pub proof fn lemma_insert_unique_holds<T>(s: Seq<T>, x: T)
    ensures
        insert_unique(s, x).contains(x),
        insert_unique(s, x).len() > 0,
        forall|y: T| #[trigger] s.contains(y) ==> insert_unique(s, x).contains(y),
{
    if !s.contains(x) {
        let t = s.push(x);
        assert(t[s.len() as int] == x);
        assert forall|y: T| #[trigger] s.contains(y) implies t.contains(y) by {
            let i = choose|i: int| 0 <= i < s.len() && s[i] == y;
            assert(t[i] == y);
        }
    } else {
        let i = choose|i: int| 0 <= i < s.len() && s[i] == x;
    }
}

impl SetsView {
    /// Whether this store has the sets of another, each with the members
    /// that it had, and the known types of the other, and maybe more of
    /// each.
    pub open spec fn holds_all_of(self, before: SetsView) -> bool {
        &&& before.sets.len() <= self.sets.len()
        &&& forall|ty: TypeView| #[trigger]
            before.map.contains_key(ty) ==> self.map.contains_key(ty)
        &&& forall|set_ref: int, ty: TypeView|
            0 <= set_ref < before.sets.len() && #[trigger] before.sets[set_ref].contains(ty)
                ==> self.sets[set_ref].contains(ty)
    }
}

/// A new set for a type keeps a store well formed, and takes nothing away.
pub proof fn lemma_new_set_wf(sets: SetsView, ty: TypeView)
    requires
        sets.wf(),
    ensures
        sets.new_set(ty).wf(),
        sets.new_set(ty).holds_all_of(sets),
{
    let after = sets.new_set(ty);
    assert(seq![ty][0] == ty);
    assert(after.sets[sets.sets.len() as int] == seq![ty]);
    assert forall|other: TypeView| #[trigger] after.map.contains_key(other) implies after.sets[after.map[other]].contains(
        other,
    ) by {
        if other != ty {
            assert(sets.map.contains_key(other));
            assert(after.sets[sets.map[other]] == sets.sets[sets.map[other]]);
        }
    }
}

/// A type that joins a set keeps a store well formed, and takes nothing
/// away.
pub proof fn lemma_add_member_wf(sets: SetsView, set_ref: int, ty: TypeView)
    requires
        sets.wf(),
        0 <= set_ref < sets.sets.len(),
    ensures
        sets.add_member(set_ref, ty).wf(),
        sets.add_member(set_ref, ty).holds_all_of(sets),
        sets.add_member(set_ref, ty).sets[set_ref].contains(ty),
{
    let after = sets.add_member(set_ref, ty);
    lemma_insert_unique_holds(sets.sets[set_ref], ty);
    assert forall|other: TypeView| #[trigger] after.map.contains_key(other) implies after.sets[after.map[other]].contains(
        other,
    ) by {
        if other != ty {
            assert(sets.map.contains_key(other));
            assert(sets.sets[sets.map[other]].contains(other));
        }
    }
    assert forall|r: int, other: TypeView|
        0 <= r < sets.sets.len() && #[trigger] sets.sets[r].contains(other) implies after.sets[r].contains(
        other,
    ) by {
    }
}

/// A new set for two types keeps a store well formed, and takes nothing
/// away.
pub proof fn lemma_new_pair_wf(sets: SetsView, first: TypeView, second: TypeView)
    requires
        sets.wf(),
    ensures
        sets.new_pair(first, second).wf(),
        sets.new_pair(first, second).holds_all_of(sets),
        sets.new_pair(first, second).sets[sets.sets.len() as int].contains(first),
        sets.new_pair(first, second).sets[sets.sets.len() as int].contains(second),
{
    let after = sets.new_pair(first, second);
    let n = sets.sets.len() as int;
    assert(seq![first][0] == first);
    assert(seq![first].contains(first));
    lemma_insert_unique_holds(seq![first], second);
    assert(after.sets[n] == insert_unique(seq![first], second));
    assert(after.sets[n].contains(first));
    assert(after.sets[n].contains(second));
    assert forall|other: TypeView| #[trigger] after.map.contains_key(other) implies after.sets[after.map[other]].contains(
        other,
    ) by {
        if other != first && other != second {
            assert(sets.map.contains_key(other));
            assert(after.sets[sets.map[other]] == sets.sets[sets.map[other]]);
        }
    }
}

impl TypeEqualitySets {
    pub closed spec fn view(&self) -> SetsView {
        SetsView {
            map: entries_map(self.set_map@),
            sets: Seq::new(self.sets@.len(), |i: int| self.sets@[i]@),
        }
    }

    pub fn new() -> (res: Self)
        ensures
            res@.map == Map::<TypeView, int>::empty(),
            res@.sets == Seq::<Seq<TypeView>>::empty(),
            res@.wf(),
    {
        let res = TypeEqualitySets { set_map: Vec::new(), sets: Vec::new() };
        assert(res@.sets =~= Seq::<Seq<TypeView>>::empty());
        res
    }

    /// The number of sets.
    pub fn len(&self) -> (res: usize)
        ensures
            res == self@.sets.len(),
    {
        self.sets.len()
    }

    /// Where the entry of a type stands in the list of entries.
    fn position(&self, ty: &Type) -> (res: Option<usize>)
        ensures
            match res {
                Some(i) => i < self.set_map@.len() && self.set_map@[i as int].0@ == ty@ && (forall|
                    j: int,
                |
                    0 <= j < i ==> (#[trigger] self.set_map@[j]).0@ != ty@),
                None => forall|j: int|
                    0 <= j < self.set_map@.len() ==> (#[trigger] self.set_map@[j]).0@ != ty@,
            },
    {
        let mut i: usize = 0;
        while i < self.set_map.len()
            invariant
                i <= self.set_map.len(),
                forall|j: int| 0 <= j < i ==> (#[trigger] self.set_map@[j]).0@ != ty@,
            decreases self.set_map.len() - i,
        {
            if self.set_map[i].0 == *ty {
                return Some(i);
            }
            i += 1;
        }
        None
    }

    pub fn contains_key(&self, ty: &Type) -> (res: bool)
        ensures
            res == self@.map.contains_key(ty@),
    {
        match self.position(ty) {
            Some(i) => {
                proof {
                    lemma_entries_first(self.set_map@, i as int, ty@);
                }
                true
            },
            None => {
                proof {
                    lemma_entries_absent(self.set_map@, ty@);
                }
                false
            },
        }
    }

    pub fn get_set_ref(&self, ty: &Type) -> (res: Option<TypeEqualitySetRef>)
        ensures
            match res {
                Some(set_ref) => self@.get_set_ref(ty@) == Some(set_ref.0 as int),
                None => self@.get_set_ref(ty@) is None,
            },
    {
        match self.position(ty) {
            Some(i) => {
                proof {
                    lemma_entries_first(self.set_map@, i as int, ty@);
                }
                Some(self.set_map[i].1)
            },
            None => {
                proof {
                    lemma_entries_absent(self.set_map@, ty@);
                }
                None
            },
        }
    }

    /// The set that a type belongs to, if the type is known and its set is
    /// in the store.
    pub fn get_set(&self, ty: &Type) -> (res: Option<&TypeEqualitySet>)
        ensures
            match res {
                Some(set) => self@.map.contains_key(ty@) && 0 <= self@.map[ty@] < self@.sets.len()
                    && set@ == self@.sets[self@.map[ty@]],
                None => !self@.map.contains_key(ty@) || self@.map[ty@] >= self@.sets.len(),
            },
    {
        match self.get_set_ref(ty) {
            Some(set_ref) => {
                if set_ref.0 < self.sets.len() {
                    Some(&self.sets[set_ref.0])
                } else {
                    None
                }
            },
            None => None,
        }
    }

    /// The members of the set at `set_ref`.
    pub fn members(&self, set_ref: TypeEqualitySetRef) -> (res: &TypeEqualitySet)
        requires
            set_ref.0 < self@.sets.len(),
        ensures
            res@ == self@.sets[set_ref.0 as int],
    {
        &self.sets[set_ref.0]
    }

    /// Makes `set_ref` the set of `ty`.
    pub(crate) fn point(&mut self, ty: Type, set_ref: TypeEqualitySetRef)
        ensures
            final(self)@.map == old(self)@.map.insert(ty@, set_ref.0 as int),
            final(self)@.sets == old(self)@.sets,
    {
        match self.position(&ty) {
            Some(i) => {
                proof {
                    lemma_entries_update(self.set_map@, i as int, (ty, set_ref));
                }
                self.set_map.set(i, (ty, set_ref));
            },
            None => {
                proof {
                    lemma_entries_push(self.set_map@, (ty, set_ref));
                }
                self.set_map.push((ty, set_ref));
            },
        }
        assert(self@.sets =~= old(self)@.sets);
    }

    pub fn new_set(&mut self, ty: Type) -> (res: TypeEqualitySetRef)
        ensures
            final(self)@ == old(self)@.new_set(ty@),
            res.0 == old(self)@.sets.len(),
            old(self)@.wf() ==> final(self)@.wf(),
    {
        proof {
            if self@.wf() {
                lemma_new_set_wf(self@, ty@);
            }
        }
        let mut set = TypeEqualitySet::new();
        set.insert(ty.clone());
        let set_ref = TypeEqualitySetRef(self.sets.len());
        self.sets.push(set);
        self.point(ty, set_ref);
        assert(self@.sets =~= old(self)@.sets.push(seq![ty@]));
        set_ref
    }

    /// Makes `ty` a member of the set at `set_ref`, and that set the set of `ty`.
    pub(crate) fn add_member(&mut self, set_ref: TypeEqualitySetRef, ty: Type)
        requires
            set_ref.0 < old(self)@.sets.len(),
        ensures
            final(self)@ == old(self)@.add_member(set_ref.0 as int, ty@),
    {
        self.sets[set_ref.0].insert(ty.clone());
        assert(self@.sets =~= old(self)@.sets.update(
            set_ref.0 as int,
            insert_unique(old(self)@.sets[set_ref.0 as int], ty@),
        ));
        self.point(ty, set_ref);
    }

    /// Adds a set with two members, and makes it the set of both.
    pub(crate) fn new_pair(&mut self, first: Type, second: Type)
        ensures
            final(self)@ == old(self)@.new_pair(first@, second@),
    {
        let mut set = TypeEqualitySet::new();
        set.insert(first.clone());
        set.insert(second.clone());
        let set_ref = TypeEqualitySetRef(self.sets.len());
        self.sets.push(set);
        assert(self@.sets =~= old(self)@.sets.push(insert_unique(seq![first@], second@)));
        self.point(first, set_ref);
        self.point(second, set_ref);
    }
}

/// Where an analysis pass stands: the store, the constraints gathered, and
/// the failure that ended the pass, if one did. Once failed, a pass stays as
/// it is.
pub struct Inference {
    pub sets: SetsView,
    pub constraints: Seq<ConstraintView>,
    pub failure: Option<InferenceError>,
}

/// A pass that has not failed.
pub open spec fn underway(sets: SetsView, constraints: Seq<ConstraintView>) -> Inference {
    Inference { sets, constraints, failure: None }
}

/// Whether a store, a set of constraints and a result are what a pass came to.
pub open spec fn came_to(
    pass: Inference,
    sets: SetsView,
    constraints: Seq<ConstraintView>,
    res: Result<(), InferenceError>,
) -> bool {
    &&& pass.sets == sets
    &&& pass.constraints == constraints
    &&& pass.failure == match res {
        Ok(_) => None,
        Err(error) => Some(error),
    }
}

impl Inference {
    /// The pass, ended by `error`.
    pub open spec fn fail(self, error: InferenceError) -> Inference {
        Inference { sets: self.sets, constraints: self.constraints, failure: Some(error) }
    }

    /// The pass with the constraint `ty: bounds` recorded.
    pub open spec fn constrain(self, ty: TypeView, bounds: Seq<BoundView>) -> Inference {
        Inference {
            sets: self.sets,
            constraints: insert_unique(
                self.constraints,
                ConstraintView::Type { lifetimes: Seq::empty(), bounded_ty: ty, bounds },
            ),
            failure: self.failure,
        }
    }

    /// The pass with another store.
    pub open spec fn with_sets(self, sets: SetsView) -> Inference {
        Inference { sets, constraints: self.constraints, failure: self.failure }
    }

    /// The pass after `a` and `b` were put into one set. `found_a` and
    /// `found_b` are the sets that they belonged to before their parts were
    /// unified. Where `a` had a set, `b` joins it; else where `b` had one,
    /// `a` joins it; else a new set holds both. Two sets are never poured
    /// into one.
    pub open spec fn merge(
        self,
        found_a: Option<int>,
        found_b: Option<int>,
        a: TypeView,
        b: TypeView,
    ) -> Inference {
        match found_a {
            Some(set_ref) => if 0 <= set_ref < self.sets.sets.len() {
                self.with_sets(self.sets.add_member(set_ref, b))
            } else {
                self.fail(InferenceError::InternalInconsistency)
            },
            None => match found_b {
                Some(set_ref) => if 0 <= set_ref < self.sets.sets.len() {
                    self.with_sets(self.sets.add_member(set_ref, a))
                } else {
                    self.fail(InferenceError::InternalInconsistency)
                },
                None => self.with_sets(self.sets.new_pair(b, a)),
            },
        }
    }
}

/// The pass after `a` and `b` were declared equal, because a value of one
/// went where the other is expected.
pub open spec fn unify(pass: Inference, a: TypeView, b: TypeView) -> Inference
    decreases a, 1int,
{
    if pass.failure is Some {
        pass
    } else if a is TraitObject && b is TraitObject {
        if a->TraitObject_0.len() != b->TraitObject_0.len() {
            pass.fail(InferenceError::ArityMismatch)
        } else {
            unify_inner(pass, a, b)
        }
    } else if a is TraitObject {
        pass.constrain(b, a->TraitObject_0)
    } else if b is TraitObject {
        pass.constrain(a, b->TraitObject_0)
    } else if a is Reference && b is ReferenceMut {
        unify(pass, *a->Reference_inner, *b->ReferenceMut_inner)
    } else if a is ReferenceMut && b is Reference {
        unify(pass, *a->ReferenceMut_inner, *b->Reference_inner)
    } else {
        let inner = unify_inner(pass, a, b);
        if inner.failure is Some {
            inner
        } else {
            inner.merge(pass.sets.get_set_ref(a), pass.sets.get_set_ref(b), a, b)
        }
    }
}

/// The pass after the parts of `a` and `b` were declared equal, where the
/// two have the same shape.
pub open spec fn unify_inner(pass: Inference, a: TypeView, b: TypeView) -> Inference
    decreases a, 0int,
{
    if pass.failure is Some {
        pass
    } else if a is Tuple && b is Tuple {
        if a->Tuple_0.len() == b->Tuple_0.len() {
            unify_each(pass, a->Tuple_0, b->Tuple_0, 0)
        } else {
            pass.fail(InferenceError::ArityMismatch)
        }
    } else if a is Reference && b is Reference {
        unify(pass, *a->Reference_inner, *b->Reference_inner)
    } else if a is ReferenceMut && b is ReferenceMut {
        unify(pass, *a->ReferenceMut_inner, *b->ReferenceMut_inner)
    } else if a is Path && b is Path {
        unify_path_arguments(pass, a->Path_0, b->Path_0)
    } else if a is TraitObject && b is TraitObject {
        unify_bounds(pass, a->TraitObject_0, b->TraitObject_0, 0)
    } else {
        pass
    }
}

/// The pass after the types of `a` and `b` from place `i` on were declared
/// equal, pair by pair.
pub open spec fn unify_each(pass: Inference, a: Seq<TypeView>, b: Seq<TypeView>, i: int) -> Inference
    decreases a, a.len() - i,
{
    if pass.failure is Some || i < 0 || i >= a.len() || i >= b.len() {
        pass
    } else {
        unify_each(unify(pass, a[i], b[i]), a, b, i + 1)
    }
}

/// The pass after the generic arguments of the last segments of two paths
/// were declared equal. Paths with different numbers of arguments may be
/// aliases of each other, and are left alone.
pub open spec fn unify_path_arguments(pass: Inference, a: PathView, b: PathView) -> Inference
    decreases a, 0int,
{
    if pass.failure is Some {
        pass
    } else if a.segments.len() == 0 || b.segments.len() == 0 {
        pass.fail(InferenceError::InternalInconsistency)
    } else {
        let args_a = a.segments.last().args;
        let args_b = b.segments.last().args;
        if args_a is AngleBracketed && args_b is AngleBracketed
            && args_a->AngleBracketed_0.len() == args_b->AngleBracketed_0.len() {
            unify_arguments(pass, args_a->AngleBracketed_0, args_b->AngleBracketed_0, 0)
        } else if args_a is Parenthesized || args_b is Parenthesized {
            pass.fail(InferenceError::UnsupportedConstruct)
        } else {
            pass
        }
    }
}

/// The pass after the generic arguments of `a` and `b` from place `i` on
/// were declared equal, pair by pair. Only pairs of types are handled.
pub open spec fn unify_arguments(
    pass: Inference,
    a: Seq<ArgumentView>,
    b: Seq<ArgumentView>,
    i: int,
) -> Inference
    decreases a, a.len() - i,
{
    if pass.failure is Some || i < 0 || i >= a.len() || i >= b.len() {
        pass
    } else if a[i] is Type && b[i] is Type {
        unify_arguments(unify(pass, a[i]->Type_0, b[i]->Type_0), a, b, i + 1)
    } else {
        pass.fail(InferenceError::UnsupportedConstruct)
    }
}

/// The pass after the traits among the bounds of `a` and `b` from place `i`
/// on were declared equal, pair by pair. Lifetimes are passed over.
pub open spec fn unify_bounds(pass: Inference, a: Seq<BoundView>, b: Seq<BoundView>, i: int) -> Inference
    decreases a, a.len() - i,
{
    if pass.failure is Some || i < 0 || i >= a.len() || i >= b.len() {
        pass
    } else if a[i] is Trait && b[i] is Trait {
        unify_bounds(unify_path_arguments(pass, a[i]->path, b[i]->path), a, b, i + 1)
    } else {
        unify_bounds(pass, a, b, i + 1)
    }
}

/// A pass that has failed stays as it is.
pub proof fn lemma_failed_each(pass: Inference, a: Seq<TypeView>, b: Seq<TypeView>, i: int)
    requires
        pass.failure is Some,
    ensures
        unify_each(pass, a, b, i) == pass,
        unify(pass, a[i], b[i]) == pass,
{
}

impl TypeEqualitySets {
    /// Declares two types equal, because a value of one went where the other
    /// is expected.
    ///
    /// Two trait objects have their traits unified, bound by bound. One trait
    /// object and another type give a constraint on that type. A reference
    /// and a mutable reference have what they point to unified. Any other
    /// two types are put into one set, after their parts were unified.
    #[verifier::loop_isolation(false)]
    pub fn insert_as_equal_to(
        &mut self,
        ty1: Type,
        ty2: Type,
        constraints: &mut ConstraintSet,
    ) -> (res: Result<(), InferenceError>)
        ensures
            came_to(
                unify(underway(old(self)@, old(constraints)@), ty1@, ty2@),
                final(self)@,
                final(constraints)@,
                res,
            ),
            old(self)@.wf() ==> final(self)@.wf(),
        decreases ty1@, 1int,
    {
        proof {
            if self@.wf() {
                lemma_unify_grows(underway(self@, constraints@), ty1@, ty2@);
            }
        }
        match (&ty1.0, &ty2.0) {
            (TypeNode::TraitObject(bounds1), TypeNode::TraitObject(bounds2)) => {
                if bounds1.len() != bounds2.len() {
                    return Err(InferenceError::ArityMismatch);
                }
                return self.insert_inner_type_as_equal_to(&ty1, &ty2, constraints);
            },
            (TypeNode::TraitObject(bounds), _) => {
                let bounds = clone_bounds(bounds);
                constraints.insert(
                    GenericConstraint::Type(
                        PredicateType { lifetimes: Vec::new(), bounded_ty: ty2, bounds },
                    ),
                );
                return Ok(());
            },
            (_, TypeNode::TraitObject(bounds)) => {
                let bounds = clone_bounds(bounds);
                constraints.insert(
                    GenericConstraint::Type(
                        PredicateType { lifetimes: Vec::new(), bounded_ty: ty1, bounds },
                    ),
                );
                return Ok(());
            },
            // A reference and a mutable reference are not equal, but a mutable
            // reference may conform to a normal reference, so the inner types
            // may be considered equal
            (
                TypeNode::Reference { inner: inner1, .. },
                TypeNode::ReferenceMut { inner: inner2, .. },
            ) => {
                return self.insert_as_equal_to(
                    Type((**inner1).clone()),
                    Type((**inner2).clone()),
                    constraints,
                );
            },
            (
                TypeNode::ReferenceMut { inner: inner1, .. },
                TypeNode::Reference { inner: inner2, .. },
            ) => {
                return self.insert_as_equal_to(
                    Type((**inner1).clone()),
                    Type((**inner2).clone()),
                    constraints,
                );
            },
            _ => {},
        }
        let found1 = self.get_set_ref(&ty1);
        let found2 = self.get_set_ref(&ty2);
        match self.insert_inner_type_as_equal_to(&ty1, &ty2, constraints) {
            Ok(()) => {},
            Err(error) => {
                return Err(error);
            },
        }
        match found1 {
            Some(set_ref) => {
                if set_ref.0 < self.sets.len() {
                    self.add_member(set_ref, ty2);
                    Ok(())
                } else {
                    Err(InferenceError::InternalInconsistency)
                }
            },
            None => match found2 {
                Some(set_ref) => {
                    if set_ref.0 < self.sets.len() {
                        self.add_member(set_ref, ty1);
                        Ok(())
                    } else {
                        Err(InferenceError::InternalInconsistency)
                    }
                },
                None => {
                    self.new_pair(ty2, ty1);
                    Ok(())
                },
            },
        }
    }

    /// Declares the parts of two types equal, where the two have the same
    /// shape: the elements of two tuples, what two references of one kind
    /// point to, the generic arguments of two paths, the traits of two trait
    /// objects. Types of different shapes are left alone.
    #[verifier::loop_isolation(false)]
    pub fn insert_inner_type_as_equal_to(
        &mut self,
        ty1: &Type,
        ty2: &Type,
        constraints: &mut ConstraintSet,
    ) -> (res: Result<(), InferenceError>)
        ensures
            came_to(
                unify_inner(underway(old(self)@, old(constraints)@), ty1@, ty2@),
                final(self)@,
                final(constraints)@,
                res,
            ),
            old(self)@.wf() ==> final(self)@.wf(),
        decreases ty1@, 0int,
    {
        proof {
            if self@.wf() {
                lemma_unify_inner_grows(underway(self@, constraints@), ty1@, ty2@);
            }
        }
        match (&ty1.0, &ty2.0) {
            (TypeNode::Tuple(types1), TypeNode::Tuple(types2)) => {
                if types1.len() == types2.len() {
                    let ghost a = types_view(types1@);
                    let ghost b = types_view(types2@);
                    let ghost goal = unify_each(underway(self@, constraints@), a, b, 0);
                    let mut i: usize = 0;
                    while i < types1.len()
                        invariant
                            i <= types1.len(),
                            unify_each(underway(self@, constraints@), a, b, i as int) == goal,
                        decreases types1.len() - i,
                    {
                        let ghost before = underway(self@, constraints@);
                        match self.insert_as_equal_to(
                            types1[i].clone(),
                            types2[i].clone(),
                            constraints,
                        ) {
                            Ok(()) => {},
                            Err(error) => {
                                proof {
                                    lemma_failed_each(unify(before, a[i as int], b[i as int]), a, b, i + 1);
                                }
                                return Err(error);
                            },
                        }
                        i += 1;
                    }
                    Ok(())
                } else {
                    Err(InferenceError::ArityMismatch)
                }
            },
            (TypeNode::Reference { inner: inner1, .. }, TypeNode::Reference { inner: inner2, .. }) => {
                self.insert_as_equal_to(
                    Type((**inner1).clone()),
                    Type((**inner2).clone()),
                    constraints,
                )
            },
            (
                TypeNode::ReferenceMut { inner: inner1, .. },
                TypeNode::ReferenceMut { inner: inner2, .. },
            ) => {
                self.insert_as_equal_to(
                    Type((**inner1).clone()),
                    Type((**inner2).clone()),
                    constraints,
                )
            },
            (TypeNode::Path(path1), TypeNode::Path(path2)) => {
                self.insert_path_arguments_as_equal_to(path1, path2, constraints)
            },
            (TypeNode::TraitObject(bounds1), TypeNode::TraitObject(bounds2)) => {
                let ghost a = ty1@->TraitObject_0;
                let ghost b = ty2@->TraitObject_0;
                let ghost goal = unify_bounds(underway(self@, constraints@), a, b, 0);
                let mut i: usize = 0;
                while i < bounds1.len() && i < bounds2.len()
                    invariant
                        i <= bounds1.len(),
                        i <= bounds2.len(),
                        unify_bounds(underway(self@, constraints@), a, b, i as int) == goal,
                    decreases bounds1.len() - i,
                {
                    let ghost before = underway(self@, constraints@);
                    assert(a[i as int] == bounds1@[i as int]@);
                    assert(b[i as int] == bounds2@[i as int]@);
                    match (&bounds1[i], &bounds2[i]) {
                        (TypeParamBound::Trait(trait_bound1), TypeParamBound::Trait(trait_bound2)) => {
                            assert(a[i as int]->path == trait_bound1.path@);
                            assert(b[i as int]->path == trait_bound2.path@);
                            match self.insert_path_arguments_as_equal_to(
                                &trait_bound1.path,
                                &trait_bound2.path,
                                constraints,
                            ) {
                                Ok(()) => {},
                                Err(error) => {
                                    let ghost failed = unify_path_arguments(
                                        before,
                                        a[i as int]->path,
                                        b[i as int]->path,
                                    );
                                    assert(unify_bounds(failed, a, b, i + 1) == failed);
                                    return Err(error);
                                },
                            }
                        },
                        _ => {},
                    }
                    i += 1;
                }
                Ok(())
            },
            _ => Ok(()),
        }
    }

    /// Declares the generic arguments of the last segments of two paths
    /// equal, pair by pair, where both have as many. Paths with different
    /// numbers of arguments may be aliases of each other, and are left alone.
    #[verifier::loop_isolation(false)]
    pub fn insert_path_arguments_as_equal_to(
        &mut self,
        path1: &Path,
        path2: &Path,
        constraints: &mut ConstraintSet,
    ) -> (res: Result<(), InferenceError>)
        ensures
            came_to(
                unify_path_arguments(underway(old(self)@, old(constraints)@), path1@, path2@),
                final(self)@,
                final(constraints)@,
                res,
            ),
            old(self)@.wf() ==> final(self)@.wf(),
        decreases path1@, 0int,
    {
        proof {
            if self@.wf() {
                lemma_unify_path_arguments_grows(underway(self@, constraints@), path1@, path2@);
            }
        }
        if path1.path.len() == 0 || path2.path.len() == 0 {
            return Err(InferenceError::InternalInconsistency);
        }
        let segment1 = &path1.path[path1.path.len() - 1];
        let segment2 = &path2.path[path2.path.len() - 1];
        match (&segment1.args, &segment2.args) {
            (PathArguments::AngleBracketed(args1), PathArguments::AngleBracketed(args2)) => {
                if args1.args.len() == args2.args.len() {
                    let ghost a = args1@;
                    let ghost b = args2@;
                    let ghost goal = unify_arguments(underway(self@, constraints@), a, b, 0);
                    let mut i: usize = 0;
                    while i < args1.args.len()
                        invariant
                            i <= args1.args.len(),
                            unify_arguments(underway(self@, constraints@), a, b, i as int) == goal,
                        decreases args1.args.len() - i,
                    {
                        let ghost before = underway(self@, constraints@);
                        assert(a[i as int] == args1.args@[i as int]@);
                        assert(b[i as int] == args2.args@[i as int]@);
                        match (&args1.args[i], &args2.args[i]) {
                            (GenericArgument::Type(ty1), GenericArgument::Type(ty2)) => {
                                match self.insert_as_equal_to(ty1.clone(), ty2.clone(), constraints) {
                                    Ok(()) => {},
                                    Err(error) => {
                                        let ghost failed = unify(before, ty1@, ty2@);
                                        assert(unify_arguments(failed, a, b, i + 1) == failed);
                                        return Err(error);
                                    },
                                }
                            },
                            _ => {
                                return Err(InferenceError::UnsupportedConstruct);
                            },
                        }
                        i += 1;
                    }
                    Ok(())
                } else {
                    Ok(())
                }
            },
            (PathArguments::Parenthesized(_), _) => Err(InferenceError::UnsupportedConstruct),
            (_, PathArguments::Parenthesized(_)) => Err(InferenceError::UnsupportedConstruct),
            _ => Ok(()),
        }
    }
}

} // verus!
