//! Types and paths as they are written, and what they mean where some
//! names stand for generic parameters.

use crate::error::InferenceError;
use crate::generics::{
    arguments_view, bounds_view, ArgumentView, BoundView, GenericArgument, TraitBound,
    TypeParamBound,
};
use crate::ident::{GenericParam, Ident, LifetimeRef};
use crate::param_map::ParamMap;
use crate::path::{
    segments_view, AngleBracketedGenericArguments, ArgumentsView, ParenthesizedGenericArguments,
    Path, PathArguments, PathSegment, PathView, SegmentView,
};
use crate::ty::{reference_to, types_view, Type, TypeNode, TypeView};
use vstd::prelude::*;

verus! {

/// A type as it is written.
#[derive(Debug)]
pub enum TypeSyntax {
    /// A path, maybe qualified by a type in front of it: `<T as Trait>::Name`.
    Path { qself: bool, path: PathSyntax },
    Reference { lifetime: Option<Ident>, mutable: bool, elem: Box<TypeSyntax> },
    TraitObject(Vec<BoundSyntax>),
    /// Types between parentheses, and whether a comma follows the last.
    Tuple { elems: Vec<TypeSyntax>, trailing_punct: bool },
    /// Any other type.
    Other,
}

/// A path as it is written.
#[derive(Debug)]
pub struct PathSyntax {
    pub leading_colon: bool,
    pub segments: Vec<SegmentSyntax>,
}

/// A path segment as it is written.
#[derive(Debug)]
pub struct SegmentSyntax {
    pub ident: Ident,
    pub arguments: ArgumentsSyntax,
}

/// The arguments of a path segment as they are written.
#[derive(Debug)]
pub enum ArgumentsSyntax {
    Empty,
    AngleBracketed(Vec<ArgumentSyntax>),
    Parenthesized { inputs: Vec<TypeSyntax>, output: Option<Box<TypeSyntax>> },
}

/// A generic argument as it is written.
#[derive(Debug)]
pub enum ArgumentSyntax {
    Type(TypeSyntax),
    Lifetime(Ident),
    /// Any other argument: a constant, a binding, a constraint.
    Other,
}

/// A bound as it is written.
#[derive(Debug)]
pub enum BoundSyntax {
    Trait(PathSyntax),
    Lifetime(Ident),
}

pub enum TypeSyntaxView {
    Path { qself: bool, path: PathSyntaxView },
    Reference { lifetime: Option<Seq<char>>, mutable: bool, elem: Box<TypeSyntaxView> },
    TraitObject(Seq<BoundSyntaxView>),
    Tuple { elems: Seq<TypeSyntaxView>, trailing_punct: bool },
    Other,
}

pub struct PathSyntaxView {
    pub leading_colon: bool,
    pub segments: Seq<SegmentSyntaxView>,
}

pub struct SegmentSyntaxView {
    pub ident: Seq<char>,
    pub arguments: ArgumentsSyntaxView,
}

pub enum ArgumentsSyntaxView {
    Empty,
    AngleBracketed(Seq<ArgumentSyntaxView>),
    Parenthesized { inputs: Seq<TypeSyntaxView>, output: Option<Box<TypeSyntaxView>> },
}

pub enum ArgumentSyntaxView {
    Type(TypeSyntaxView),
    Lifetime(Seq<char>),
    Other,
}

pub enum BoundSyntaxView {
    Trait(PathSyntaxView),
    Lifetime(Seq<char>),
}

/// The characters of a name that may be missing.
pub open spec fn optional_name_view(name: Option<Ident>) -> Option<Seq<char>> {
    match name {
        Some(name) => Some(name@),
        None => None,
    }
}

impl TypeSyntax {
    pub open spec fn view(&self) -> TypeSyntaxView
        decreases self,
    {
        match self {
            TypeSyntax::Path { qself, path } => TypeSyntaxView::Path {
                qself: *qself,
                path: path.view(),
            },
            TypeSyntax::Reference { lifetime, mutable, elem } => TypeSyntaxView::Reference {
                lifetime: optional_name_view(*lifetime),
                mutable: *mutable,
                elem: Box::new(elem.view()),
            },
            TypeSyntax::TraitObject(bounds) => TypeSyntaxView::TraitObject(
                bounds_syntax_view(bounds@),
            ),
            TypeSyntax::Tuple { elems, trailing_punct } => TypeSyntaxView::Tuple {
                elems: types_syntax_view(elems@),
                trailing_punct: *trailing_punct,
            },
            TypeSyntax::Other => TypeSyntaxView::Other,
        }
    }
}

/// The views of a list of written types.
pub open spec fn types_syntax_view(s: Seq<TypeSyntax>) -> Seq<TypeSyntaxView>
    decreases s,
{
    Seq::new(
        s.len(),
        |i: int|
            if 0 <= i < s.len() {
                s[i].view()
            } else {
                arbitrary()
            },
    )
}

impl PathSyntax {
    pub open spec fn view(&self) -> PathSyntaxView
        decreases self,
    {
        PathSyntaxView {
            leading_colon: self.leading_colon,
            segments: segments_syntax_view(self.segments@),
        }
    }
}

/// The views of a list of written path segments.
pub open spec fn segments_syntax_view(s: Seq<SegmentSyntax>) -> Seq<SegmentSyntaxView>
    decreases s,
{
    Seq::new(
        s.len(),
        |i: int|
            if 0 <= i < s.len() {
                s[i].view()
            } else {
                arbitrary()
            },
    )
}

impl SegmentSyntax {
    pub open spec fn view(&self) -> SegmentSyntaxView
        decreases self,
    {
        SegmentSyntaxView { ident: self.ident@, arguments: self.arguments.view() }
    }
}

impl ArgumentsSyntax {
    pub open spec fn view(&self) -> ArgumentsSyntaxView
        decreases self,
    {
        match self {
            ArgumentsSyntax::Empty => ArgumentsSyntaxView::Empty,
            ArgumentsSyntax::AngleBracketed(arguments) => ArgumentsSyntaxView::AngleBracketed(
                arguments_syntax_view(arguments@),
            ),
            ArgumentsSyntax::Parenthesized { inputs, output } => ArgumentsSyntaxView::Parenthesized {
                inputs: types_syntax_view(inputs@),
                output: match output {
                    Some(output) => Some(Box::new(output.view())),
                    None => None,
                },
            },
        }
    }
}

impl ArgumentSyntax {
    pub open spec fn view(&self) -> ArgumentSyntaxView
        decreases self,
    {
        match self {
            ArgumentSyntax::Type(ty) => ArgumentSyntaxView::Type(ty.view()),
            ArgumentSyntax::Lifetime(name) => ArgumentSyntaxView::Lifetime(name@),
            ArgumentSyntax::Other => ArgumentSyntaxView::Other,
        }
    }
}

/// The views of a list of written generic arguments.
pub open spec fn arguments_syntax_view(s: Seq<ArgumentSyntax>) -> Seq<ArgumentSyntaxView>
    decreases s,
{
    Seq::new(
        s.len(),
        |i: int|
            if 0 <= i < s.len() {
                s[i].view()
            } else {
                arbitrary()
            },
    )
}

impl BoundSyntax {
    pub open spec fn view(&self) -> BoundSyntaxView
        decreases self,
    {
        match self {
            BoundSyntax::Trait(path) => BoundSyntaxView::Trait(path.view()),
            BoundSyntax::Lifetime(name) => BoundSyntaxView::Lifetime(name@),
        }
    }
}

/// The views of a list of written bounds.
pub open spec fn bounds_syntax_view(s: Seq<BoundSyntax>) -> Seq<BoundSyntaxView>
    decreases s,
{
    Seq::new(
        s.len(),
        |i: int|
            if 0 <= i < s.len() {
                s[i].view()
            } else {
                arbitrary()
            },
    )
}

/// The lifetime parameter that a name stands for. A name that stands for
/// none is not handled.
pub open spec fn lifetime_of(params: Map<Seq<char>, GenericParam>, name: Seq<char>) -> Result<
    LifetimeRef,
    InferenceError,
> {
    if params.contains_key(name) && params[name] is Lifetime {
        Ok(params[name]->Lifetime_0)
    } else {
        Err(InferenceError::UnsupportedConstruct)
    }
}

/// The lifetime parameter that the lifetime of a reference stands for, if
/// the reference has a lifetime.
pub open spec fn optional_lifetime_of(
    params: Map<Seq<char>, GenericParam>,
    name: Option<Seq<char>>,
) -> Result<Option<LifetimeRef>, InferenceError> {
    match name {
        Some(name) => match lifetime_of(params, name) {
            Ok(lifetime) => Ok(Some(lifetime)),
            Err(error) => Err(error),
        },
        None => Ok(None),
    }
}

/// Whether a written path is one name and nothing else.
pub open spec fn is_single_name(path: PathSyntaxView) -> bool {
    !path.leading_colon && path.segments.len() == 1 && path.segments[0].arguments is Empty
}

/// The type that a written type means.
///
/// A name that stands for a type parameter means that parameter; any other
/// path means a path. One type between parentheses, with no comma behind
/// it, means that type; no type between them means the empty tuple. Paths
/// qualified by a type, and types of other kinds, are not handled.
pub open spec fn type_of_syntax(params: Map<Seq<char>, GenericParam>, ty: TypeSyntaxView) -> Result<
    TypeView,
    InferenceError,
>
    decreases ty, 0int,
{
    match ty {
        TypeSyntaxView::Path { qself, path } => if qself {
            Err(InferenceError::UnsupportedConstruct)
        } else if is_single_name(path) && params.contains_key(path.segments[0].ident) {
            match params[path.segments[0].ident] {
                GenericParam::Type(type_param_ref) => Ok(TypeView::TypeParam(type_param_ref)),
                GenericParam::Lifetime(_) => Err(InferenceError::InternalInconsistency),
            }
        } else {
            match path_of_syntax(params, path) {
                Ok(path) => Ok(TypeView::Path(path)),
                Err(error) => Err(error),
            }
        },
        TypeSyntaxView::Reference { lifetime, mutable, elem } => match type_of_syntax(
            params,
            *elem,
        ) {
            Ok(inner) => match optional_lifetime_of(params, lifetime) {
                Ok(lifetime) => Ok(reference_to(inner, lifetime, mutable)),
                Err(error) => Err(error),
            },
            Err(error) => Err(error),
        },
        TypeSyntaxView::TraitObject(bounds) => match bounds_of_syntax(
            params,
            bounds,
            0,
            Seq::empty(),
        ) {
            Ok(bounds) => Ok(TypeView::TraitObject(bounds)),
            Err(error) => Err(error),
        },
        TypeSyntaxView::Tuple { elems, trailing_punct } => if elems.len() == 1 && !trailing_punct {
            type_of_syntax(params, elems[0])
        } else {
            match types_of_syntax(params, elems, 0, Seq::empty()) {
                Ok(types) => Ok(TypeView::Tuple(types)),
                Err(error) => Err(error),
            }
        },
        TypeSyntaxView::Other => Err(InferenceError::UnsupportedConstruct),
    }
}

/// The types that the written types from place `i` on mean, behind those
/// that were found before.
pub open spec fn types_of_syntax(
    params: Map<Seq<char>, GenericParam>,
    types: Seq<TypeSyntaxView>,
    i: int,
    found: Seq<TypeView>,
) -> Result<Seq<TypeView>, InferenceError>
    decreases types, types.len() - i,
{
    if i < 0 || i >= types.len() {
        Ok(found)
    } else {
        match type_of_syntax(params, types[i]) {
            Ok(ty) => types_of_syntax(params, types, i + 1, found.push(ty)),
            Err(error) => Err(error),
        }
    }
}

/// The path that a written path means.
pub open spec fn path_of_syntax(params: Map<Seq<char>, GenericParam>, path: PathSyntaxView) -> Result<
    PathView,
    InferenceError,
>
    decreases path, 0int,
{
    match segments_of_syntax(params, path.segments, 0, Seq::empty()) {
        Ok(segments) => Ok(PathView { global: path.leading_colon, segments }),
        Err(error) => Err(error),
    }
}

/// The path segments that the written segments from place `i` on mean,
/// behind those that were found before.
pub open spec fn segments_of_syntax(
    params: Map<Seq<char>, GenericParam>,
    segments: Seq<SegmentSyntaxView>,
    i: int,
    found: Seq<SegmentView>,
) -> Result<Seq<SegmentView>, InferenceError>
    decreases segments, segments.len() - i,
{
    if i < 0 || i >= segments.len() {
        Ok(found)
    } else {
        match segment_of_syntax(params, segments[i]) {
            Ok(segment) => segments_of_syntax(params, segments, i + 1, found.push(segment)),
            Err(error) => Err(error),
        }
    }
}

/// The path segment that a written segment means.
pub open spec fn segment_of_syntax(
    params: Map<Seq<char>, GenericParam>,
    segment: SegmentSyntaxView,
) -> Result<SegmentView, InferenceError>
    decreases segment, 0int,
{
    match segment.arguments {
        ArgumentsSyntaxView::Empty => Ok(
            SegmentView { ident: segment.ident, args: ArgumentsView::Empty },
        ),
        ArgumentsSyntaxView::AngleBracketed(arguments) => match arguments_of_syntax(
            params,
            arguments,
            0,
            Seq::empty(),
        ) {
            Ok(arguments) => Ok(
                SegmentView { ident: segment.ident, args: ArgumentsView::AngleBracketed(arguments) },
            ),
            Err(error) => Err(error),
        },
        ArgumentsSyntaxView::Parenthesized { inputs, output } => match types_of_syntax(
            params,
            inputs,
            0,
            Seq::empty(),
        ) {
            Ok(inputs) => match output {
                Some(output) => match type_of_syntax(params, *output) {
                    Ok(output) => Ok(
                        SegmentView {
                            ident: segment.ident,
                            args: ArgumentsView::Parenthesized { inputs, output: Some(output) },
                        },
                    ),
                    Err(error) => Err(error),
                },
                None => Ok(
                    SegmentView {
                        ident: segment.ident,
                        args: ArgumentsView::Parenthesized { inputs, output: None },
                    },
                ),
            },
            Err(error) => Err(error),
        },
    }
}

/// The generic arguments that the written arguments from place `i` on
/// mean, behind those that were found before. Only types and lifetimes are
/// handled.
pub open spec fn arguments_of_syntax(
    params: Map<Seq<char>, GenericParam>,
    arguments: Seq<ArgumentSyntaxView>,
    i: int,
    found: Seq<ArgumentView>,
) -> Result<Seq<ArgumentView>, InferenceError>
    decreases arguments, arguments.len() - i,
{
    if i < 0 || i >= arguments.len() {
        Ok(found)
    } else {
        match arguments[i] {
            ArgumentSyntaxView::Type(ty) => match type_of_syntax(params, ty) {
                Ok(ty) => arguments_of_syntax(
                    params,
                    arguments,
                    i + 1,
                    found.push(ArgumentView::Type(ty)),
                ),
                Err(error) => Err(error),
            },
            ArgumentSyntaxView::Lifetime(name) => match lifetime_of(params, name) {
                Ok(lifetime) => arguments_of_syntax(
                    params,
                    arguments,
                    i + 1,
                    found.push(ArgumentView::Lifetime(lifetime)),
                ),
                Err(error) => Err(error),
            },
            ArgumentSyntaxView::Other => Err(InferenceError::UnsupportedConstruct),
        }
    }
}

/// The bounds that the written bounds from place `i` on mean, behind those
/// that were found before.
pub open spec fn bounds_of_syntax(
    params: Map<Seq<char>, GenericParam>,
    bounds: Seq<BoundSyntaxView>,
    i: int,
    found: Seq<BoundView>,
) -> Result<Seq<BoundView>, InferenceError>
    decreases bounds, bounds.len() - i,
{
    if i < 0 || i >= bounds.len() {
        Ok(found)
    } else {
        match bounds[i] {
            BoundSyntaxView::Trait(path) => match path_of_syntax(params, path) {
                Ok(path) => bounds_of_syntax(
                    params,
                    bounds,
                    i + 1,
                    found.push(BoundView::Trait { lifetimes: Seq::empty(), path }),
                ),
                Err(error) => Err(error),
            },
            BoundSyntaxView::Lifetime(name) => match lifetime_of(params, name) {
                Ok(lifetime) => bounds_of_syntax(
                    params,
                    bounds,
                    i + 1,
                    found.push(BoundView::Lifetime(lifetime)),
                ),
                Err(error) => Err(error),
            },
        }
    }
}

/// The view of a type or the failure in its place.
pub open spec fn type_result_view(res: Result<Type, InferenceError>) -> Result<TypeView, InferenceError> {
    match res {
        Ok(ty) => Ok(ty@),
        Err(error) => Err(error),
    }
}

/// The view of a path or the failure in its place.
pub open spec fn path_result_view(res: Result<Path, InferenceError>) -> Result<PathView, InferenceError> {
    match res {
        Ok(path) => Ok(path@),
        Err(error) => Err(error),
    }
}

/// The view of a path segment or the failure in its place.
pub open spec fn segment_result_view(res: Result<PathSegment, InferenceError>) -> Result<
    SegmentView,
    InferenceError,
> {
    match res {
        Ok(segment) => Ok(segment@),
        Err(error) => Err(error),
    }
}

/// The views of some types or the failure in their place.
pub open spec fn types_result_view(res: Result<Vec<Type>, InferenceError>) -> Result<
    Seq<TypeView>,
    InferenceError,
> {
    match res {
        Ok(types) => Ok(types_view(types@)),
        Err(error) => Err(error),
    }
}

/// The views of some bounds or the failure in their place.
pub open spec fn bounds_result_view(res: Result<Vec<TypeParamBound>, InferenceError>) -> Result<
    Seq<BoundView>,
    InferenceError,
> {
    match res {
        Ok(bounds) => Ok(bounds_view(bounds@)),
        Err(error) => Err(error),
    }
}

/// The lifetime parameter that a name stands for.
fn lifetime(name: &Ident, param_map: &ParamMap) -> (res: Result<LifetimeRef, InferenceError>)
    ensures
        res == lifetime_of(param_map@, name@),
{
    match param_map.get(name) {
        Some(GenericParam::Lifetime(lifetime_ref)) => Ok(lifetime_ref),
        _ => Err(InferenceError::UnsupportedConstruct),
    }
}

/// The types that some written types mean.
#[verifier::loop_isolation(false)]
fn syn_to_types(types: &Vec<TypeSyntax>, param_map: &ParamMap) -> (res: Result<
    Vec<Type>,
    InferenceError,
>)
    ensures
        types_result_view(res) == types_of_syntax(
            param_map@,
            types_syntax_view(types@),
            0,
            Seq::empty(),
        ),
    decreases types, 0int,
{
    let ghost views = types_syntax_view(types@);
    let ghost goal = types_of_syntax(param_map@, views, 0, Seq::empty());
    let mut found: Vec<Type> = Vec::new();
    let mut i: usize = 0;
    assert(types_view(found@) =~= Seq::<TypeView>::empty());
    while i < types.len()
        invariant
            i <= types.len(),
            types_of_syntax(param_map@, views, i as int, types_view(found@)) == goal,
        decreases types.len() - i,
    {
        let ghost before = types_view(found@);
        assert(views[i as int] == types@[i as int]@);
        match Type::syn_to_type(&types[i], param_map) {
            Ok(ty) => {
                found.push(ty);
                assert(types_view(found@) =~= before.push(ty@));
            },
            Err(error) => {
                return Err(error);
            },
        }
        i += 1;
    }
    Ok(found)
}

/// The bounds that some written bounds mean.
#[verifier::loop_isolation(false)]
fn syn_to_type_param_bounds(bounds: &Vec<BoundSyntax>, param_map: &ParamMap) -> (res: Result<
    Vec<TypeParamBound>,
    InferenceError,
>)
    ensures
        bounds_result_view(res) == bounds_of_syntax(
            param_map@,
            bounds_syntax_view(bounds@),
            0,
            Seq::empty(),
        ),
    decreases bounds, 0int,
{
    let ghost views = bounds_syntax_view(bounds@);
    let ghost goal = bounds_of_syntax(param_map@, views, 0, Seq::empty());
    let mut found: Vec<TypeParamBound> = Vec::new();
    let mut i: usize = 0;
    assert(bounds_view(found@) =~= Seq::<BoundView>::empty());
    while i < bounds.len()
        invariant
            i <= bounds.len(),
            bounds_of_syntax(param_map@, views, i as int, bounds_view(found@)) == goal,
        decreases bounds.len() - i,
    {
        let ghost before = bounds_view(found@);
        assert(views[i as int] == bounds@[i as int]@);
        match &bounds[i] {
            BoundSyntax::Trait(path) => match Path::syn_to_path(path, param_map) {
                Ok(path) => {
                    found.push(TypeParamBound::Trait(TraitBound { lifetimes: Vec::new(), path }));
                    assert(bounds_view(found@) =~= before.push(
                        BoundView::Trait { lifetimes: Seq::empty(), path: path@ },
                    ));
                },
                Err(error) => {
                    return Err(error);
                },
            },
            BoundSyntax::Lifetime(name) => match lifetime(name, param_map) {
                Ok(lifetime_ref) => {
                    found.push(TypeParamBound::Lifetime(lifetime_ref));
                    assert(bounds_view(found@) =~= before.push(BoundView::Lifetime(lifetime_ref)));
                },
                Err(error) => {
                    return Err(error);
                },
            },
        }
        i += 1;
    }
    Ok(found)
}

impl Type {
    /// The type that a written type means, where the names of `param_map`
    /// stand for generic parameters.
    pub fn syn_to_type(ty: &TypeSyntax, param_map: &ParamMap) -> (res: Result<Type, InferenceError>)
        ensures
            type_result_view(res) == type_of_syntax(param_map@, ty@),
        decreases ty, 1int,
    {
        match ty {
            TypeSyntax::Path { qself, path } => {
                if *qself {
                    return Err(InferenceError::UnsupportedConstruct);
                }
                assert(ty@ == TypeSyntaxView::Path { qself: *qself, path: path@ });
                assert(path@.segments.len() == path.segments@.len());
                if !path.leading_colon && path.segments.len() == 1 {
                    assert(path@.segments[0] == path.segments@[0]@);
                    match (&path.segments[0].arguments, param_map.get(&path.segments[0].ident)) {
                        (ArgumentsSyntax::Empty, Some(GenericParam::Type(type_param_ref))) => {
                            return Ok(Type(TypeNode::TypeParam(type_param_ref)));
                        },
                        (ArgumentsSyntax::Empty, Some(GenericParam::Lifetime(_))) => {
                            return Err(InferenceError::InternalInconsistency);
                        },
                        _ => {},
                    }
                }
                match Path::syn_to_path(path, param_map) {
                    Ok(path) => Ok(Type(TypeNode::Path(path))),
                    Err(error) => Err(error),
                }
            },
            TypeSyntax::Reference { lifetime: name, mutable, elem } => {
                let inner = match Type::syn_to_type(elem, param_map) {
                    Ok(inner) => Box::new(inner.0),
                    Err(error) => {
                        return Err(error);
                    },
                };
                let lifetime = match name {
                    Some(name) => match lifetime(name, param_map) {
                        Ok(lifetime_ref) => Some(lifetime_ref),
                        Err(error) => {
                            return Err(error);
                        },
                    },
                    None => None,
                };
                if *mutable {
                    Ok(Type(TypeNode::ReferenceMut { lifetime, inner }))
                } else {
                    Ok(Type(TypeNode::Reference { lifetime, inner }))
                }
            },
            TypeSyntax::TraitObject(bounds) => match syn_to_type_param_bounds(bounds, param_map) {
                Ok(bounds) => Ok(Type(TypeNode::TraitObject(bounds))),
                Err(error) => Err(error),
            },
            TypeSyntax::Tuple { elems, trailing_punct } => {
                if elems.len() == 1 && !*trailing_punct {
                    // It is not a tuple. The parentheses were just used to
                    // disambiguate the type.
                    assert(ty@ == TypeSyntaxView::Tuple {
                        elems: types_syntax_view(elems@),
                        trailing_punct: *trailing_punct,
                    });
                    assert(types_syntax_view(elems@)[0] == elems@[0]@);
                    Type::syn_to_type(&elems[0], param_map)
                } else {
                    match syn_to_types(elems, param_map) {
                        Ok(types) => Ok(Type(TypeNode::Tuple(types))),
                        Err(error) => Err(error),
                    }
                }
            },
            TypeSyntax::Other => Err(InferenceError::UnsupportedConstruct),
        }
    }

    /// The trait object of the bounds that some written bounds mean, where
    /// the names of `param_map` stand for generic parameters.
    pub fn get_trait_object(type_param_bounds: &Vec<BoundSyntax>, param_map: &ParamMap) -> (res: Result<
        Type,
        InferenceError,
    >)
        ensures
            type_result_view(res) == type_of_syntax(
                param_map@,
                TypeSyntaxView::TraitObject(bounds_syntax_view(type_param_bounds@)),
            ),
    {
        match syn_to_type_param_bounds(type_param_bounds, param_map) {
            Ok(bounds) => Ok(Type(TypeNode::TraitObject(bounds))),
            Err(error) => Err(error),
        }
    }
}

impl Path {
    /// The path that a written path means, where the names of `param_map`
    /// stand for generic parameters.
    #[verifier::loop_isolation(false)]
    pub fn syn_to_path(path: &PathSyntax, param_map: &ParamMap) -> (res: Result<Path, InferenceError>)
        ensures
            path_result_view(res) == path_of_syntax(param_map@, path@),
        decreases path, 0int,
    {
        let global = path.leading_colon;
        let ghost views = path@.segments;
        let ghost goal = segments_of_syntax(param_map@, views, 0, Seq::empty());
        let mut found: Vec<PathSegment> = Vec::new();
        let mut i: usize = 0;
        assert(segments_view(found@) =~= Seq::<SegmentView>::empty());
        while i < path.segments.len()
            invariant
                i <= path.segments.len(),
                segments_of_syntax(param_map@, views, i as int, segments_view(found@)) == goal,
            decreases path.segments.len() - i,
        {
            let ghost before = segments_view(found@);
            assert(views[i as int] == path.segments@[i as int]@);
            match Path::syn_to_path_segment(&path.segments[i], param_map) {
                Ok(segment) => {
                    found.push(segment);
                    assert(segments_view(found@) =~= before.push(segment@));
                },
                Err(error) => {
                    return Err(error);
                },
            }
            i += 1;
        }
        Ok(Path { global, path: found })
    }

    /// The path segment that a written segment means, where the names of
    /// `param_map` stand for generic parameters.
    #[verifier::loop_isolation(false)]
    pub fn syn_to_path_segment(path_segment: &SegmentSyntax, param_map: &ParamMap) -> (res: Result<
        PathSegment,
        InferenceError,
    >)
        ensures
            segment_result_view(res) == segment_of_syntax(param_map@, path_segment@),
        decreases path_segment, 0int,
    {
        let ident = path_segment.ident.clone();
        match &path_segment.arguments {
            ArgumentsSyntax::Empty => Ok(PathSegment { ident, args: PathArguments::Empty }),
            ArgumentsSyntax::AngleBracketed(generic_args) => {
                let ghost views = arguments_syntax_view(generic_args@);
                let ghost goal = arguments_of_syntax(param_map@, views, 0, Seq::empty());
                let mut args: Vec<GenericArgument> = Vec::new();
                let mut i: usize = 0;
                assert(arguments_view(args@) =~= Seq::<ArgumentView>::empty());
                while i < generic_args.len()
                    invariant
                        i <= generic_args.len(),
                        arguments_of_syntax(param_map@, views, i as int, arguments_view(args@))
                            == goal,
                    decreases generic_args.len() - i,
                {
                    let ghost before = arguments_view(args@);
                    assert(views[i as int] == generic_args@[i as int]@);
                    match &generic_args[i] {
                        ArgumentSyntax::Type(ty) => match Type::syn_to_type(ty, param_map) {
                            Ok(ty) => {
                                args.push(GenericArgument::Type(ty));
                                assert(arguments_view(args@) =~= before.push(ArgumentView::Type(ty@)));
                            },
                            Err(error) => {
                                return Err(error);
                            },
                        },
                        ArgumentSyntax::Lifetime(name) => match lifetime(name, param_map) {
                            Ok(lifetime_ref) => {
                                args.push(GenericArgument::Lifetime(lifetime_ref));
                                assert(arguments_view(args@) =~= before.push(
                                    ArgumentView::Lifetime(lifetime_ref),
                                ));
                            },
                            Err(error) => {
                                return Err(error);
                            },
                        },
                        ArgumentSyntax::Other => {
                            return Err(InferenceError::UnsupportedConstruct);
                        },
                    }
                    i += 1;
                }
                Ok(
                    PathSegment {
                        ident,
                        args: PathArguments::AngleBracketed(AngleBracketedGenericArguments { args }),
                    },
                )
            },
            ArgumentsSyntax::Parenthesized { inputs, output } => {
                let inputs = match syn_to_types(inputs, param_map) {
                    Ok(inputs) => inputs,
                    Err(error) => {
                        return Err(error);
                    },
                };
                let output = match output {
                    Some(ty) => match Type::syn_to_type(ty, param_map) {
                        Ok(ty) => Some(ty),
                        Err(error) => {
                            return Err(error);
                        },
                    },
                    None => None,
                };
                Ok(
                    PathSegment {
                        ident,
                        args: PathArguments::Parenthesized(
                            ParenthesizedGenericArguments { inputs, output },
                        ),
                    },
                )
            },
        }
    }
}

} // verus!
