//! Generic parameters, arguments, bounds and the constraints that tie them.

use crate::ident::{
    clone_lifetimes, clone_params, eq_lifetimes, eq_params, GenericParam, LifetimeRef,
};
use crate::path::{Path, PathView};
use crate::ty::{Type, TypeView};
use vstd::prelude::*;
use vstd::std_specs::cmp::PartialEqSpecImpl;

verus! {

/// The generic parameters of an item and the constraints declared on them.
#[derive(Debug)]
pub struct Generics {
    pub params: Vec<GenericParam>,
    pub constraints: Vec<GenericConstraint>,
}

/// One predicate of a `where` clause.
#[derive(Debug)]
pub enum GenericConstraint {
    /// A type predicate: `for<'c> Foo<'c>: Trait<'c>`.
    Type(PredicateType),
    /// A lifetime predicate: `'a: 'b + 'c`.
    Lifetime(PredicateLifetime),
}

/// A type with the bounds that it has to meet.
#[derive(Debug)]
pub struct PredicateType {
    /// Lifetimes bound by a `for<..>` in front of the predicate.
    pub lifetimes: Vec<LifetimeRef>,
    /// The type being bounded.
    pub bounded_ty: Type,
    /// The bounds on it.
    pub bounds: Vec<TypeParamBound>,
}

/// A lifetime with the lifetimes that it has to outlive.
#[derive(Debug)]
pub struct PredicateLifetime {
    pub lifetime: LifetimeRef,
    pub bounds: Vec<LifetimeRef>,
}

/// One bound on a type: a trait or a lifetime.
#[derive(Debug)]
pub enum TypeParamBound {
    Trait(TraitBound),
    Lifetime(LifetimeRef),
}

/// A trait used as a bound.
#[derive(Debug)]
pub struct TraitBound {
    /// Lifetimes bound by a `for<..>` in front of the trait.
    pub lifetimes: Vec<LifetimeRef>,
    /// The trait.
    pub path: Path,
}

/// One argument between the angle brackets of a path segment.
#[derive(Debug)]
pub enum GenericArgument {
    Type(Type),
    Lifetime(LifetimeRef),
}

pub struct GenericsView {
    pub params: Seq<GenericParam>,
    pub constraints: Seq<ConstraintView>,
}

pub enum ConstraintView {
    Type { lifetimes: Seq<LifetimeRef>, bounded_ty: TypeView, bounds: Seq<BoundView> },
    Lifetime { lifetime: LifetimeRef, outlives: Seq<LifetimeRef> },
}

pub enum BoundView {
    Trait { lifetimes: Seq<LifetimeRef>, path: PathView },
    Lifetime(LifetimeRef),
}

pub enum ArgumentView {
    Type(TypeView),
    Lifetime(LifetimeRef),
}

impl GenericArgument {
    pub open spec fn view(&self) -> ArgumentView
        decreases self,
    {
        match self {
            GenericArgument::Type(ty) => ArgumentView::Type(ty.view()),
            GenericArgument::Lifetime(lifetime) => ArgumentView::Lifetime(*lifetime),
        }
    }
}

/// The views of a list of generic arguments.
pub open spec fn arguments_view(s: Seq<GenericArgument>) -> Seq<ArgumentView>
    decreases s,
{
    Seq::new(
        s.len(),
        |i: int|
            if 0 <= i < s.len() {
                s[i].view()
            } else {
                arbitrary()
            },
    )
}

impl TraitBound {
    pub open spec fn view(&self) -> BoundView
        decreases self,
    {
        BoundView::Trait { lifetimes: self.lifetimes@, path: self.path.view() }
    }
}

impl TypeParamBound {
    pub open spec fn view(&self) -> BoundView
        decreases self,
    {
        match self {
            TypeParamBound::Trait(bound) => bound.view(),
            TypeParamBound::Lifetime(lifetime) => BoundView::Lifetime(*lifetime),
        }
    }
}

/// The views of a list of bounds.
pub open spec fn bounds_view(s: Seq<TypeParamBound>) -> Seq<BoundView>
    decreases s,
{
    Seq::new(
        s.len(),
        |i: int|
            if 0 <= i < s.len() {
                s[i].view()
            } else {
                arbitrary()
            },
    )
}

impl PredicateType {
    pub open spec fn view(&self) -> ConstraintView
        decreases self,
    {
        ConstraintView::Type {
            lifetimes: self.lifetimes@,
            bounded_ty: self.bounded_ty.view(),
            bounds: bounds_view(self.bounds@),
        }
    }
}

impl PredicateLifetime {
    pub open spec fn view(&self) -> ConstraintView {
        ConstraintView::Lifetime { lifetime: self.lifetime, outlives: self.bounds@ }
    }
}

impl GenericConstraint {
    pub open spec fn view(&self) -> ConstraintView
        decreases self,
    {
        match self {
            GenericConstraint::Type(predicate) => predicate.view(),
            GenericConstraint::Lifetime(predicate) => predicate.view(),
        }
    }
}

/// The views of a list of constraints.
pub open spec fn constraints_view(s: Seq<GenericConstraint>) -> Seq<ConstraintView>
    decreases s,
{
    Seq::new(
        s.len(),
        |i: int|
            if 0 <= i < s.len() {
                s[i].view()
            } else {
                arbitrary()
            },
    )
}

impl Generics {
    pub open spec fn view(&self) -> GenericsView
        decreases self,
    {
        GenericsView { params: self.params@, constraints: constraints_view(self.constraints@) }
    }
}

impl Clone for GenericArgument {
    fn clone(&self) -> (res: Self)
        ensures
            res@ == self@,
        decreases self,
    {
        match self {
            GenericArgument::Type(ty) => GenericArgument::Type(ty.clone()),
            GenericArgument::Lifetime(lifetime) => GenericArgument::Lifetime(*lifetime),
        }
    }
}

/// Copies a list of generic arguments.
#[verifier::loop_isolation(false)]
pub fn clone_arguments(v: &Vec<GenericArgument>) -> (res: Vec<GenericArgument>)
    ensures
        arguments_view(res@) == arguments_view(v@),
    decreases v,
{
    let mut out: Vec<GenericArgument> = Vec::new();
    let mut i: usize = 0;
    while i < v.len()
        invariant
            i <= v.len(),
            out@.len() == i,
            forall|j: int| 0 <= j < i ==> out@[j]@ == v@[j]@,
        decreases v.len() - i,
    {
        out.push(v[i].clone());
        i += 1;
    }
    assert(arguments_view(out@) =~= arguments_view(v@));
    out
}

impl Clone for TraitBound {
    fn clone(&self) -> (res: Self)
        ensures
            res@ == self@,
        decreases self,
    {
        TraitBound { lifetimes: clone_lifetimes(&self.lifetimes), path: self.path.clone() }
    }
}

impl Clone for TypeParamBound {
    fn clone(&self) -> (res: Self)
        ensures
            res@ == self@,
        decreases self,
    {
        match self {
            TypeParamBound::Trait(bound) => TypeParamBound::Trait(bound.clone()),
            TypeParamBound::Lifetime(lifetime) => TypeParamBound::Lifetime(*lifetime),
        }
    }
}

/// Copies a list of bounds.
#[verifier::loop_isolation(false)]
pub fn clone_bounds(v: &Vec<TypeParamBound>) -> (res: Vec<TypeParamBound>)
    ensures
        bounds_view(res@) == bounds_view(v@),
    decreases v,
{
    let mut out: Vec<TypeParamBound> = Vec::new();
    let mut i: usize = 0;
    while i < v.len()
        invariant
            i <= v.len(),
            out@.len() == i,
            forall|j: int| 0 <= j < i ==> out@[j]@ == v@[j]@,
        decreases v.len() - i,
    {
        out.push(v[i].clone());
        i += 1;
    }
    assert(bounds_view(out@) =~= bounds_view(v@));
    out
}

impl Clone for PredicateType {
    fn clone(&self) -> (res: Self)
        ensures
            res@ == self@,
        decreases self,
    {
        PredicateType {
            lifetimes: clone_lifetimes(&self.lifetimes),
            bounded_ty: self.bounded_ty.clone(),
            bounds: clone_bounds(&self.bounds),
        }
    }
}

impl Clone for PredicateLifetime {
    fn clone(&self) -> (res: Self)
        ensures
            res@ == self@,
    {
        PredicateLifetime { lifetime: self.lifetime, bounds: clone_lifetimes(&self.bounds) }
    }
}

impl Clone for GenericConstraint {
    fn clone(&self) -> (res: Self)
        ensures
            res@ == self@,
        decreases self,
    {
        match self {
            GenericConstraint::Type(predicate) => GenericConstraint::Type(predicate.clone()),
            GenericConstraint::Lifetime(predicate) => GenericConstraint::Lifetime(predicate.clone()),
        }
    }
}

/// Copies a list of constraints.
#[verifier::loop_isolation(false)]
pub fn clone_constraints(v: &Vec<GenericConstraint>) -> (res: Vec<GenericConstraint>)
    ensures
        constraints_view(res@) == constraints_view(v@),
    decreases v,
{
    let mut out: Vec<GenericConstraint> = Vec::new();
    let mut i: usize = 0;
    while i < v.len()
        invariant
            i <= v.len(),
            out@.len() == i,
            forall|j: int| 0 <= j < i ==> out@[j]@ == v@[j]@,
        decreases v.len() - i,
    {
        out.push(v[i].clone());
        i += 1;
    }
    assert(constraints_view(out@) =~= constraints_view(v@));
    out
}

impl Clone for Generics {
    fn clone(&self) -> (res: Self)
        ensures
            res@ == self@,
        decreases self,
    {
        Generics {
            params: clone_params(&self.params),
            constraints: clone_constraints(&self.constraints),
        }
    }
}

impl PartialEq for GenericArgument {
    fn eq(&self, other: &Self) -> (res: bool)
        decreases self,
    {
        match (self, other) {
            (GenericArgument::Type(a), GenericArgument::Type(b)) => *a == *b,
            (GenericArgument::Lifetime(a), GenericArgument::Lifetime(b)) => *a == *b,
            _ => false,
        }
    }
}

impl PartialEqSpecImpl for GenericArgument {
    open spec fn obeys_eq_spec() -> bool {
        true
    }

    open spec fn eq_spec(&self, other: &Self) -> bool {
        self@ == other@
    }
}

impl Eq for GenericArgument {

}

/// Whether two lists hold the same generic arguments in the same order.
#[verifier::loop_isolation(false)]
pub fn eq_arguments(a: &Vec<GenericArgument>, b: &Vec<GenericArgument>) -> (res: bool)
    ensures
        res == (arguments_view(a@) == arguments_view(b@)),
    decreases a,
{
    if a.len() != b.len() {
        assert(arguments_view(a@).len() != arguments_view(b@).len());
        return false;
    }
    let mut i: usize = 0;
    while i < a.len()
        invariant
            i <= a.len(),
            a.len() == b.len(),
            forall|j: int| 0 <= j < i ==> a@[j]@ == b@[j]@,
        decreases a.len() - i,
    {
        if !(a[i] == b[i]) {
            assert(arguments_view(a@)[i as int] != arguments_view(b@)[i as int]);
            return false;
        }
        i += 1;
    }
    assert(arguments_view(a@) =~= arguments_view(b@));
    true
}

impl PartialEq for TraitBound {
    fn eq(&self, other: &Self) -> (res: bool)
        decreases self,
    {
        eq_lifetimes(&self.lifetimes, &other.lifetimes) && self.path == other.path
    }
}

impl PartialEqSpecImpl for TraitBound {
    open spec fn obeys_eq_spec() -> bool {
        true
    }

    open spec fn eq_spec(&self, other: &Self) -> bool {
        self@ == other@
    }
}

impl Eq for TraitBound {

}

impl PartialEq for TypeParamBound {
    fn eq(&self, other: &Self) -> (res: bool)
        decreases self,
    {
        match (self, other) {
            (TypeParamBound::Trait(a), TypeParamBound::Trait(b)) => *a == *b,
            (TypeParamBound::Lifetime(a), TypeParamBound::Lifetime(b)) => *a == *b,
            _ => false,
        }
    }
}

impl PartialEqSpecImpl for TypeParamBound {
    open spec fn obeys_eq_spec() -> bool {
        true
    }

    open spec fn eq_spec(&self, other: &Self) -> bool {
        self@ == other@
    }
}

impl Eq for TypeParamBound {

}

/// Whether two lists hold the same bounds in the same order.
#[verifier::loop_isolation(false)]
pub fn eq_bounds(a: &Vec<TypeParamBound>, b: &Vec<TypeParamBound>) -> (res: bool)
    ensures
        res == (bounds_view(a@) == bounds_view(b@)),
    decreases a,
{
    if a.len() != b.len() {
        assert(bounds_view(a@).len() != bounds_view(b@).len());
        return false;
    }
    let mut i: usize = 0;
    while i < a.len()
        invariant
            i <= a.len(),
            a.len() == b.len(),
            forall|j: int| 0 <= j < i ==> a@[j]@ == b@[j]@,
        decreases a.len() - i,
    {
        if !(a[i] == b[i]) {
            assert(bounds_view(a@)[i as int] != bounds_view(b@)[i as int]);
            return false;
        }
        i += 1;
    }
    assert(bounds_view(a@) =~= bounds_view(b@));
    true
}

impl PartialEq for PredicateType {
    fn eq(&self, other: &Self) -> (res: bool)
        decreases self,
    {
        eq_lifetimes(&self.lifetimes, &other.lifetimes) && self.bounded_ty == other.bounded_ty
            && eq_bounds(&self.bounds, &other.bounds)
    }
}

impl PartialEqSpecImpl for PredicateType {
    open spec fn obeys_eq_spec() -> bool {
        true
    }

    open spec fn eq_spec(&self, other: &Self) -> bool {
        self@ == other@
    }
}

impl Eq for PredicateType {

}

impl PartialEq for PredicateLifetime {
    fn eq(&self, other: &Self) -> (res: bool) {
        self.lifetime == other.lifetime && eq_lifetimes(&self.bounds, &other.bounds)
    }
}

impl PartialEqSpecImpl for PredicateLifetime {
    open spec fn obeys_eq_spec() -> bool {
        true
    }

    open spec fn eq_spec(&self, other: &Self) -> bool {
        self@ == other@
    }
}

impl Eq for PredicateLifetime {

}

impl PartialEq for GenericConstraint {
    fn eq(&self, other: &Self) -> (res: bool)
        decreases self,
    {
        match (self, other) {
            (GenericConstraint::Type(a), GenericConstraint::Type(b)) => *a == *b,
            (GenericConstraint::Lifetime(a), GenericConstraint::Lifetime(b)) => *a == *b,
            _ => false,
        }
    }
}

impl PartialEqSpecImpl for GenericConstraint {
    open spec fn obeys_eq_spec() -> bool {
        true
    }

    open spec fn eq_spec(&self, other: &Self) -> bool {
        self@ == other@
    }
}

impl Eq for GenericConstraint {

}

/// Whether two lists hold the same constraints in the same order.
#[verifier::loop_isolation(false)]
pub fn eq_constraints(a: &Vec<GenericConstraint>, b: &Vec<GenericConstraint>) -> (res: bool)
    ensures
        res == (constraints_view(a@) == constraints_view(b@)),
    decreases a,
{
    if a.len() != b.len() {
        assert(constraints_view(a@).len() != constraints_view(b@).len());
        return false;
    }
    let mut i: usize = 0;
    while i < a.len()
        invariant
            i <= a.len(),
            a.len() == b.len(),
            forall|j: int| 0 <= j < i ==> a@[j]@ == b@[j]@,
        decreases a.len() - i,
    {
        if !(a[i] == b[i]) {
            assert(constraints_view(a@)[i as int] != constraints_view(b@)[i as int]);
            return false;
        }
        i += 1;
    }
    assert(constraints_view(a@) =~= constraints_view(b@));
    true
}

impl PartialEq for Generics {
    fn eq(&self, other: &Self) -> (res: bool)
        decreases self,
    {
        eq_params(&self.params, &other.params) && eq_constraints(
            &self.constraints,
            &other.constraints,
        )
    }
}

impl PartialEqSpecImpl for Generics {
    open spec fn obeys_eq_spec() -> bool {
        true
    }

    open spec fn eq_spec(&self, other: &Self) -> bool {
        self@ == other@
    }
}

impl Eq for Generics {

}

} // verus!
