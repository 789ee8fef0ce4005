//! Copies of types in which every generic parameter is replaced by another.

use crate::error::InferenceError;
use crate::generics::{
    arguments_view, bounds_view, ArgumentView, BoundView, GenericArgument, TraitBound,
    TypeParamBound,
};
use crate::ident::{GenericParam, LifetimeRef, TypeParamRef};
use crate::path::{
    segments_view, AngleBracketedGenericArguments, ArgumentsView, ParenthesizedGenericArguments,
    Path, PathArguments, PathSegment, PathView, SegmentView,
};
use crate::syntax::{bounds_result_view, path_result_view, type_result_view, types_result_view};
use crate::ty::{types_view, Type, TypeNode, TypeView};
use std::collections::BTreeMap;
use vstd::prelude::*;

verus! {

/// Which generic parameter takes the place of which.
#[derive(Debug)]
pub struct ParamRefMap {
    types: BTreeMap<usize, GenericParam>,
    lifetimes: BTreeMap<usize, GenericParam>,
}

impl ParamRefMap {
    pub closed spec fn view(&self) -> Map<GenericParam, GenericParam> {
        Map::new(
            |param: GenericParam|
                match param {
                    GenericParam::Type(type_param_ref) => self.types@.contains_key(type_param_ref.0),
                    GenericParam::Lifetime(lifetime_ref) => self.lifetimes@.contains_key(
                        lifetime_ref.0,
                    ),
                },
            |param: GenericParam|
                match param {
                    GenericParam::Type(type_param_ref) => self.types@[type_param_ref.0],
                    GenericParam::Lifetime(lifetime_ref) => self.lifetimes@[lifetime_ref.0],
                },
        )
    }

    pub fn new() -> (res: Self)
        ensures
            res@ == Map::<GenericParam, GenericParam>::empty(),
    {
        let res = ParamRefMap { types: BTreeMap::new(), lifetimes: BTreeMap::new() };
        assert(res@ =~= Map::<GenericParam, GenericParam>::empty());
        res
    }

    /// Lets `fresh` take the place of `param`.
    pub fn insert(&mut self, param: GenericParam, fresh: GenericParam)
        ensures
            final(self)@ == old(self)@.insert(param, fresh),
    {
        match param {
            GenericParam::Type(type_param_ref) => {
                self.types.insert(type_param_ref.0, fresh);
            },
            GenericParam::Lifetime(lifetime_ref) => {
                self.lifetimes.insert(lifetime_ref.0, fresh);
            },
        }
        assert(self@ =~= old(self)@.insert(param, fresh));
    }

    /// The parameter that takes the place of `param`, if one does.
    pub fn get(&self, param: GenericParam) -> (res: Option<GenericParam>)
        ensures
            res == if self@.contains_key(param) {
                Some(self@[param])
            } else {
                None
            },
    {
        match param {
            GenericParam::Type(type_param_ref) => match self.types.get(&type_param_ref.0) {
                Some(fresh) => Some(*fresh),
                None => None,
            },
            GenericParam::Lifetime(lifetime_ref) => match self.lifetimes.get(&lifetime_ref.0) {
                Some(fresh) => Some(*fresh),
                None => None,
            },
        }
    }
}

/// The type parameter that takes the place of another. One whose place
/// nothing takes, or a lifetime takes, shows a map that was not made for
/// this type.
pub open spec fn fresh_type_param(
    map: Map<GenericParam, GenericParam>,
    type_param_ref: TypeParamRef,
) -> Result<TypeParamRef, InferenceError> {
    let param = GenericParam::Type(type_param_ref);
    if map.contains_key(param) && map[param] is Type {
        Ok(map[param]->Type_0)
    } else {
        Err(InferenceError::InternalInconsistency)
    }
}

/// The lifetime that takes the place of another.
pub open spec fn fresh_lifetime(map: Map<GenericParam, GenericParam>, lifetime_ref: LifetimeRef) -> Result<
    LifetimeRef,
    InferenceError,
> {
    let param = GenericParam::Lifetime(lifetime_ref);
    if map.contains_key(param) && map[param] is Lifetime {
        Ok(map[param]->Lifetime_0)
    } else {
        Err(InferenceError::InternalInconsistency)
    }
}

/// The lifetime that takes the place of the lifetime of a reference, if
/// the reference has one.
pub open spec fn fresh_optional_lifetime(
    map: Map<GenericParam, GenericParam>,
    lifetime: Option<LifetimeRef>,
) -> Result<Option<LifetimeRef>, InferenceError> {
    match lifetime {
        Some(lifetime_ref) => match fresh_lifetime(map, lifetime_ref) {
            Ok(fresh) => Ok(Some(fresh)),
            Err(error) => Err(error),
        },
        None => Ok(None),
    }
}

/// The lifetimes that take the place of those from place `i` on, behind
/// those that were found before.
pub open spec fn fresh_lifetimes(
    map: Map<GenericParam, GenericParam>,
    lifetimes: Seq<LifetimeRef>,
    i: int,
    found: Seq<LifetimeRef>,
) -> Result<Seq<LifetimeRef>, InferenceError>
    decreases lifetimes.len() - i,
{
    if i < 0 || i >= lifetimes.len() {
        Ok(found)
    } else {
        match fresh_lifetime(map, lifetimes[i]) {
            Ok(fresh) => fresh_lifetimes(map, lifetimes, i + 1, found.push(fresh)),
            Err(error) => Err(error),
        }
    }
}

/// A type with every generic parameter replaced by the one that takes its
/// place. Data structures are not handled.
pub open spec fn fresh_type(map: Map<GenericParam, GenericParam>, ty: TypeView) -> Result<
    TypeView,
    InferenceError,
>
    decreases ty, 0int,
{
    match ty {
        TypeView::Infer => Ok(TypeView::Infer),
        TypeView::Tuple(types) => match fresh_types(map, types, 0, Seq::empty()) {
            Ok(types) => Ok(TypeView::Tuple(types)),
            Err(error) => Err(error),
        },
        TypeView::PrimitiveStr => Ok(TypeView::PrimitiveStr),
        TypeView::Reference { lifetime, inner } => match fresh_optional_lifetime(map, lifetime) {
            Ok(lifetime) => match fresh_type(map, *inner) {
                Ok(inner) => Ok(TypeView::Reference { lifetime, inner: Box::new(inner) }),
                Err(error) => Err(error),
            },
            Err(error) => Err(error),
        },
        TypeView::ReferenceMut { lifetime, inner } => match fresh_optional_lifetime(map, lifetime) {
            Ok(lifetime) => match fresh_type(map, *inner) {
                Ok(inner) => Ok(TypeView::ReferenceMut { lifetime, inner: Box::new(inner) }),
                Err(error) => Err(error),
            },
            Err(error) => Err(error),
        },
        TypeView::Dereference(inner) => match fresh_type(map, *inner) {
            Ok(inner) => Ok(TypeView::Dereference(Box::new(inner))),
            Err(error) => Err(error),
        },
        TypeView::TraitObject(bounds) => match fresh_bounds(map, bounds, 0, Seq::empty()) {
            Ok(bounds) => Ok(TypeView::TraitObject(bounds)),
            Err(error) => Err(error),
        },
        TypeView::DataStructure { .. } => Err(InferenceError::UnsupportedConstruct),
        TypeView::Path(path) => match fresh_path(map, path) {
            Ok(path) => Ok(TypeView::Path(path)),
            Err(error) => Err(error),
        },
        TypeView::TypeParam(type_param_ref) => match fresh_type_param(map, type_param_ref) {
            Ok(fresh) => Ok(TypeView::TypeParam(fresh)),
            Err(error) => Err(error),
        },
    }
}

/// The types from place `i` on with their generic parameters replaced,
/// behind those that were found before.
pub open spec fn fresh_types(
    map: Map<GenericParam, GenericParam>,
    types: Seq<TypeView>,
    i: int,
    found: Seq<TypeView>,
) -> Result<Seq<TypeView>, InferenceError>
    decreases types, types.len() - i,
{
    if i < 0 || i >= types.len() {
        Ok(found)
    } else {
        match fresh_type(map, types[i]) {
            Ok(ty) => fresh_types(map, types, i + 1, found.push(ty)),
            Err(error) => Err(error),
        }
    }
}

/// The bounds from place `i` on with their generic parameters replaced,
/// behind those that were found before.
pub open spec fn fresh_bounds(
    map: Map<GenericParam, GenericParam>,
    bounds: Seq<BoundView>,
    i: int,
    found: Seq<BoundView>,
) -> Result<Seq<BoundView>, InferenceError>
    decreases bounds, bounds.len() - i,
{
    if i < 0 || i >= bounds.len() {
        Ok(found)
    } else {
        match fresh_bound(map, bounds[i]) {
            Ok(bound) => fresh_bounds(map, bounds, i + 1, found.push(bound)),
            Err(error) => Err(error),
        }
    }
}

/// A bound with every generic parameter replaced.
pub open spec fn fresh_bound(map: Map<GenericParam, GenericParam>, bound: BoundView) -> Result<
    BoundView,
    InferenceError,
>
    decreases bound, 0int,
{
    match bound {
        BoundView::Trait { lifetimes, path } => match fresh_lifetimes(
            map,
            lifetimes,
            0,
            Seq::empty(),
        ) {
            Ok(lifetimes) => match fresh_path(map, path) {
                Ok(path) => Ok(BoundView::Trait { lifetimes, path }),
                Err(error) => Err(error),
            },
            Err(error) => Err(error),
        },
        BoundView::Lifetime(lifetime_ref) => match fresh_lifetime(map, lifetime_ref) {
            Ok(fresh) => Ok(BoundView::Lifetime(fresh)),
            Err(error) => Err(error),
        },
    }
}

/// A path with every generic parameter among its arguments replaced.
pub open spec fn fresh_path(map: Map<GenericParam, GenericParam>, path: PathView) -> Result<
    PathView,
    InferenceError,
>
    decreases path, 0int,
{
    match fresh_segments(map, path.segments, 0, Seq::empty()) {
        Ok(segments) => Ok(PathView { global: path.global, segments }),
        Err(error) => Err(error),
    }
}

/// The path segments from place `i` on with their generic parameters
/// replaced, behind those that were found before.
pub open spec fn fresh_segments(
    map: Map<GenericParam, GenericParam>,
    segments: Seq<SegmentView>,
    i: int,
    found: Seq<SegmentView>,
) -> Result<Seq<SegmentView>, InferenceError>
    decreases segments, segments.len() - i,
{
    if i < 0 || i >= segments.len() {
        Ok(found)
    } else {
        match fresh_path_arguments(map, segments[i].args) {
            Ok(args) => fresh_segments(
                map,
                segments,
                i + 1,
                found.push(SegmentView { ident: segments[i].ident, args }),
            ),
            Err(error) => Err(error),
        }
    }
}

/// The arguments of a path segment with their generic parameters replaced.
pub open spec fn fresh_path_arguments(map: Map<GenericParam, GenericParam>, args: ArgumentsView) -> Result<
    ArgumentsView,
    InferenceError,
>
    decreases args, 0int,
{
    match args {
        ArgumentsView::Empty => Ok(ArgumentsView::Empty),
        ArgumentsView::AngleBracketed(arguments) => match fresh_arguments(
            map,
            arguments,
            0,
            Seq::empty(),
        ) {
            Ok(arguments) => Ok(ArgumentsView::AngleBracketed(arguments)),
            Err(error) => Err(error),
        },
        ArgumentsView::Parenthesized { inputs, output } => match fresh_types(
            map,
            inputs,
            0,
            Seq::empty(),
        ) {
            Ok(inputs) => match output {
                Some(output) => match fresh_type(map, output) {
                    Ok(output) => Ok(ArgumentsView::Parenthesized { inputs, output: Some(output) }),
                    Err(error) => Err(error),
                },
                None => Ok(ArgumentsView::Parenthesized { inputs, output: None }),
            },
            Err(error) => Err(error),
        },
    }
}

/// The generic arguments from place `i` on with their generic parameters
/// replaced, behind those that were found before.
pub open spec fn fresh_arguments(
    map: Map<GenericParam, GenericParam>,
    arguments: Seq<ArgumentView>,
    i: int,
    found: Seq<ArgumentView>,
) -> Result<Seq<ArgumentView>, InferenceError>
    decreases arguments, arguments.len() - i,
{
    if i < 0 || i >= arguments.len() {
        Ok(found)
    } else {
        match arguments[i] {
            ArgumentView::Type(ty) => match fresh_type(map, ty) {
                Ok(ty) => fresh_arguments(map, arguments, i + 1, found.push(ArgumentView::Type(ty))),
                Err(error) => Err(error),
            },
            ArgumentView::Lifetime(lifetime_ref) => match fresh_lifetime(map, lifetime_ref) {
                Ok(fresh) => fresh_arguments(
                    map,
                    arguments,
                    i + 1,
                    found.push(ArgumentView::Lifetime(fresh)),
                ),
                Err(error) => Err(error),
            },
        }
    }
}

/// The view of a bound or the failure in its place.
pub open spec fn bound_result_view(res: Result<TypeParamBound, InferenceError>) -> Result<
    BoundView,
    InferenceError,
> {
    match res {
        Ok(bound) => Ok(bound@),
        Err(error) => Err(error),
    }
}

/// The lifetime that takes the place of another.
fn lifetime_with_fresh_generics(lifetime_ref: LifetimeRef, ref_map: &ParamRefMap) -> (res: Result<
    LifetimeRef,
    InferenceError,
>)
    ensures
        res == fresh_lifetime(ref_map@, lifetime_ref),
{
    match ref_map.get(GenericParam::Lifetime(lifetime_ref)) {
        Some(GenericParam::Lifetime(fresh)) => Ok(fresh),
        _ => Err(InferenceError::InternalInconsistency),
    }
}

/// The lifetime that takes the place of the lifetime of a reference.
fn optional_lifetime_with_fresh_generics(lifetime: &Option<LifetimeRef>, ref_map: &ParamRefMap) -> (res:
    Result<Option<LifetimeRef>, InferenceError>)
    ensures
        res == fresh_optional_lifetime(ref_map@, *lifetime),
{
    match lifetime {
        Some(lifetime_ref) => match lifetime_with_fresh_generics(*lifetime_ref, ref_map) {
            Ok(fresh) => Ok(Some(fresh)),
            Err(error) => Err(error),
        },
        None => Ok(None),
    }
}

/// The lifetimes that take the place of others.
#[verifier::loop_isolation(false)]
fn lifetimes_with_fresh_generics(lifetimes: &Vec<LifetimeRef>, ref_map: &ParamRefMap) -> (res: Result<
    Vec<LifetimeRef>,
    InferenceError,
>)
    ensures
        match res {
            Ok(fresh) => fresh_lifetimes(ref_map@, lifetimes@, 0, Seq::empty()) == Ok::<
                Seq<LifetimeRef>,
                InferenceError,
            >(fresh@),
            Err(error) => fresh_lifetimes(ref_map@, lifetimes@, 0, Seq::empty()) == Err::<
                Seq<LifetimeRef>,
                InferenceError,
            >(error),
        },
{
    let ghost goal = fresh_lifetimes(ref_map@, lifetimes@, 0, Seq::empty());
    let mut found: Vec<LifetimeRef> = Vec::new();
    let mut i: usize = 0;
    while i < lifetimes.len()
        invariant
            i <= lifetimes.len(),
            fresh_lifetimes(ref_map@, lifetimes@, i as int, found@) == goal,
        decreases lifetimes.len() - i,
    {
        match lifetime_with_fresh_generics(lifetimes[i], ref_map) {
            Ok(fresh) => {
                found.push(fresh);
            },
            Err(error) => {
                return Err(error);
            },
        }
        i += 1;
    }
    Ok(found)
}

/// Copies of some types, with every generic parameter replaced.
#[verifier::loop_isolation(false)]
fn types_with_fresh_generics(types: &Vec<Type>, ref_map: &ParamRefMap) -> (res: Result<
    Vec<Type>,
    InferenceError,
>)
    ensures
        types_result_view(res) == fresh_types(ref_map@, types_view(types@), 0, Seq::empty()),
    decreases types, 0int,
{
    let ghost views = types_view(types@);
    let ghost goal = fresh_types(ref_map@, views, 0, Seq::empty());
    let mut found: Vec<Type> = Vec::new();
    let mut i: usize = 0;
    assert(types_view(found@) =~= Seq::<TypeView>::empty());
    while i < types.len()
        invariant
            i <= types.len(),
            fresh_types(ref_map@, views, i as int, types_view(found@)) == goal,
        decreases types.len() - i,
    {
        let ghost before = types_view(found@);
        assert(views[i as int] == types@[i as int]@);
        match types[i].clone_with_fresh_generics(ref_map) {
            Ok(ty) => {
                found.push(ty);
                assert(types_view(found@) =~= before.push(ty@));
            },
            Err(error) => {
                return Err(error);
            },
        }
        i += 1;
    }
    Ok(found)
}

/// Copies of some bounds, with every generic parameter replaced.
#[verifier::loop_isolation(false)]
fn bounds_with_fresh_generics(bounds: &Vec<TypeParamBound>, ref_map: &ParamRefMap) -> (res: Result<
    Vec<TypeParamBound>,
    InferenceError,
>)
    ensures
        bounds_result_view(res) == fresh_bounds(ref_map@, bounds_view(bounds@), 0, Seq::empty()),
    decreases bounds, 0int,
{
    let ghost views = bounds_view(bounds@);
    let ghost goal = fresh_bounds(ref_map@, views, 0, Seq::empty());
    let mut found: Vec<TypeParamBound> = Vec::new();
    let mut i: usize = 0;
    assert(bounds_view(found@) =~= Seq::<BoundView>::empty());
    while i < bounds.len()
        invariant
            i <= bounds.len(),
            fresh_bounds(ref_map@, views, i as int, bounds_view(found@)) == goal,
        decreases bounds.len() - i,
    {
        let ghost before = bounds_view(found@);
        assert(views[i as int] == bounds@[i as int]@);
        match bounds[i].clone_with_fresh_generics(ref_map) {
            Ok(bound) => {
                found.push(bound);
                assert(bounds_view(found@) =~= before.push(bound@));
            },
            Err(error) => {
                return Err(error);
            },
        }
        i += 1;
    }
    Ok(found)
}

impl TypeParamBound {
    /// A copy of the bound, with every generic parameter replaced by the
    /// one that takes its place.
    pub fn clone_with_fresh_generics(&self, ref_map: &ParamRefMap) -> (res: Result<
        TypeParamBound,
        InferenceError,
    >)
        ensures
            bound_result_view(res) == fresh_bound(ref_map@, self@),
        decreases self, 0int,
    {
        match self {
            TypeParamBound::Trait(bound) => {
                let lifetimes = match lifetimes_with_fresh_generics(&bound.lifetimes, ref_map) {
                    Ok(lifetimes) => lifetimes,
                    Err(error) => {
                        return Err(error);
                    },
                };
                match bound.path.clone_with_fresh_generics(ref_map) {
                    Ok(path) => Ok(TypeParamBound::Trait(TraitBound { lifetimes, path })),
                    Err(error) => Err(error),
                }
            },
            TypeParamBound::Lifetime(lifetime_ref) => match lifetime_with_fresh_generics(
                *lifetime_ref,
                ref_map,
            ) {
                Ok(fresh) => Ok(TypeParamBound::Lifetime(fresh)),
                Err(error) => Err(error),
            },
        }
    }
}

impl Type {
    /// A copy of the type, with every generic parameter replaced by the one
    /// that takes its place.
    pub fn clone_with_fresh_generics(&self, ref_map: &ParamRefMap) -> (res: Result<
        Type,
        InferenceError,
    >)
        ensures
            type_result_view(res) == fresh_type(ref_map@, self@),
        decreases self, 1int,
    {
        match self.0.clone_with_fresh_generics(ref_map) {
            Ok(node) => Ok(Type(node)),
            Err(error) => Err(error),
        }
    }
}

/// The view of a type node or the failure in its place.
pub open spec fn node_result_view(res: Result<TypeNode, InferenceError>) -> Result<TypeView, InferenceError> {
    match res {
        Ok(node) => Ok(node@),
        Err(error) => Err(error),
    }
}

impl TypeNode {
    /// A copy of the type, with every generic parameter replaced by the one
    /// that takes its place.
    pub fn clone_with_fresh_generics(&self, ref_map: &ParamRefMap) -> (res: Result<
        TypeNode,
        InferenceError,
    >)
        ensures
            node_result_view(res) == fresh_type(ref_map@, self@),
        decreases self, 0int,
    {
        match self {
            TypeNode::Infer => Ok(TypeNode::Infer),
            TypeNode::Tuple(types) => match types_with_fresh_generics(types, ref_map) {
                Ok(types) => Ok(TypeNode::Tuple(types)),
                Err(error) => Err(error),
            },
            TypeNode::PrimitiveStr => Ok(TypeNode::PrimitiveStr),
            TypeNode::Reference { lifetime, inner } => {
                let lifetime = match optional_lifetime_with_fresh_generics(lifetime, ref_map) {
                    Ok(lifetime) => lifetime,
                    Err(error) => {
                        return Err(error);
                    },
                };
                match inner.clone_with_fresh_generics(ref_map) {
                    Ok(inner) => Ok(TypeNode::Reference { lifetime, inner: Box::new(inner) }),
                    Err(error) => Err(error),
                }
            },
            TypeNode::ReferenceMut { lifetime, inner } => {
                let lifetime = match optional_lifetime_with_fresh_generics(lifetime, ref_map) {
                    Ok(lifetime) => lifetime,
                    Err(error) => {
                        return Err(error);
                    },
                };
                match inner.clone_with_fresh_generics(ref_map) {
                    Ok(inner) => Ok(TypeNode::ReferenceMut { lifetime, inner: Box::new(inner) }),
                    Err(error) => Err(error),
                }
            },
            TypeNode::Dereference(dereference) => match dereference.clone_with_fresh_generics(
                ref_map,
            ) {
                Ok(inner) => Ok(TypeNode::Dereference(Box::new(inner))),
                Err(error) => Err(error),
            },
            TypeNode::TraitObject(bounds) => match bounds_with_fresh_generics(bounds, ref_map) {
                Ok(bounds) => Ok(TypeNode::TraitObject(bounds)),
                Err(error) => Err(error),
            },
            TypeNode::DataStructure { .. } => Err(InferenceError::UnsupportedConstruct),
            TypeNode::Path(path) => match path.clone_with_fresh_generics(ref_map) {
                Ok(path) => Ok(TypeNode::Path(path)),
                Err(error) => Err(error),
            },
            TypeNode::TypeParam(type_param_ref) => match ref_map.get(
                GenericParam::Type(*type_param_ref),
            ) {
                Some(GenericParam::Type(fresh)) => Ok(TypeNode::TypeParam(fresh)),
                _ => Err(InferenceError::InternalInconsistency),
            },
        }
    }
}

impl Path {
    /// A copy of the path, with every generic parameter among its arguments
    /// replaced by the one that takes its place.
    #[verifier::loop_isolation(false)]
    pub fn clone_with_fresh_generics(&self, ref_map: &ParamRefMap) -> (res: Result<
        Path,
        InferenceError,
    >)
        ensures
            path_result_view(res) == fresh_path(ref_map@, self@),
        decreases self, 0int,
    {
        let ghost views = self@.segments;
        let ghost goal = fresh_segments(ref_map@, views, 0, Seq::empty());
        let mut found: Vec<PathSegment> = Vec::new();
        let mut i: usize = 0;
        assert(segments_view(found@) =~= Seq::<SegmentView>::empty());
        while i < self.path.len()
            invariant
                i <= self.path.len(),
                fresh_segments(ref_map@, views, i as int, segments_view(found@)) == goal,
            decreases self.path.len() - i,
        {
            let ghost before = segments_view(found@);
            let segment = &self.path[i];
            assert(views[i as int] == segment@);
            let args = match &segment.args {
                PathArguments::Empty => PathArguments::Empty,
                PathArguments::AngleBracketed(args) => match args.clone_with_fresh_generics(
                    ref_map,
                ) {
                    Ok(args) => PathArguments::AngleBracketed(args),
                    Err(error) => {
                        return Err(error);
                    },
                },
                PathArguments::Parenthesized(args) => match args.clone_with_fresh_generics(
                    ref_map,
                ) {
                    Ok(args) => PathArguments::Parenthesized(args),
                    Err(error) => {
                        return Err(error);
                    },
                },
            };
            assert(views[i as int].args == segment.args@);
            assert(fresh_path_arguments(ref_map@, views[i as int].args) == Ok::<
                ArgumentsView,
                InferenceError,
            >(args@));
            let ghost fresh = SegmentView { ident: segment.ident@, args: args@ };
            found.push(PathSegment { ident: segment.ident.clone(), args });
            assert(segments_view(found@) =~= before.push(fresh));
            i += 1;
        }
        Ok(Path { global: self.global, path: found })
    }
}

impl AngleBracketedGenericArguments {
    /// A copy of the arguments, with every generic parameter replaced by
    /// the one that takes its place.
    #[verifier::loop_isolation(false)]
    pub fn clone_with_fresh_generics(&self, ref_map: &ParamRefMap) -> (res: Result<
        AngleBracketedGenericArguments,
        InferenceError,
    >)
        ensures
            match res {
                Ok(args) => fresh_path_arguments(ref_map@, ArgumentsView::AngleBracketed(self@))
                    == Ok::<ArgumentsView, InferenceError>(ArgumentsView::AngleBracketed(args@)),
                Err(error) => fresh_path_arguments(ref_map@, ArgumentsView::AngleBracketed(self@))
                    == Err::<ArgumentsView, InferenceError>(error),
            },
        decreases self, 0int,
    {
        let ghost views = self@;
        let ghost goal = fresh_arguments(ref_map@, views, 0, Seq::empty());
        let mut found: Vec<GenericArgument> = Vec::new();
        let mut i: usize = 0;
        assert(arguments_view(found@) =~= Seq::<ArgumentView>::empty());
        while i < self.args.len()
            invariant
                i <= self.args.len(),
                fresh_arguments(ref_map@, views, i as int, arguments_view(found@)) == goal,
            decreases self.args.len() - i,
        {
            let ghost before = arguments_view(found@);
            assert(views[i as int] == self.args@[i as int]@);
            match &self.args[i] {
                GenericArgument::Type(ty) => match ty.clone_with_fresh_generics(ref_map) {
                    Ok(ty) => {
                        found.push(GenericArgument::Type(ty));
                        assert(arguments_view(found@) =~= before.push(ArgumentView::Type(ty@)));
                    },
                    Err(error) => {
                        return Err(error);
                    },
                },
                GenericArgument::Lifetime(lifetime_ref) => match lifetime_with_fresh_generics(
                    *lifetime_ref,
                    ref_map,
                ) {
                    Ok(fresh) => {
                        found.push(GenericArgument::Lifetime(fresh));
                        assert(arguments_view(found@) =~= before.push(ArgumentView::Lifetime(fresh)));
                    },
                    Err(error) => {
                        return Err(error);
                    },
                },
            }
            i += 1;
        }
        Ok(AngleBracketedGenericArguments { args: found })
    }
}

impl ParenthesizedGenericArguments {
    /// A copy of the arguments, with every generic parameter replaced by
    /// the one that takes its place.
    pub fn clone_with_fresh_generics(&self, ref_map: &ParamRefMap) -> (res: Result<
        ParenthesizedGenericArguments,
        InferenceError,
    >)
        ensures
            match res {
                Ok(args) => fresh_path_arguments(ref_map@, self@) == Ok::<
                    ArgumentsView,
                    InferenceError,
                >(args@),
                Err(error) => fresh_path_arguments(ref_map@, self@) == Err::<
                    ArgumentsView,
                    InferenceError,
                >(error),
            },
        decreases self, 0int,
    {
        let inputs = match types_with_fresh_generics(&self.inputs, ref_map) {
            Ok(inputs) => inputs,
            Err(error) => {
                return Err(error);
            },
        };
        let output = match &self.output {
            Some(ty) => match ty.clone_with_fresh_generics(ref_map) {
                Ok(ty) => Some(ty),
                Err(error) => {
                    return Err(error);
                },
            },
            None => None,
        };
        Ok(ParenthesizedGenericArguments { inputs, output })
    }
}

} // verus!
