//! The closed grammar of types.

use crate::data::{Data, DataView, Field, FieldView};
use crate::generics::{
    bounds_view, clone_bounds, eq_bounds, BoundView, Generics, GenericsView, TypeParamBound,
};
use crate::error::InferenceError;
use crate::ident::{GenericParam, Ident, LifetimeRef, TypeParamRef};
use crate::generics::TraitBound;
use crate::path::{is_simple, Path, PathView};
use vstd::prelude::*;
use vstd::std_specs::cmp::PartialEqSpecImpl;

verus! {

/// A type, as the inference sees it.
#[derive(Debug)]
pub struct Type(pub TypeNode);

/// The shapes that a type can have.
#[derive(Debug)]
pub enum TypeNode {
    /// A type that is yet to be found out.
    Infer,
    Tuple(Vec<Type>),
    PrimitiveStr,
    Reference { lifetime: Option<LifetimeRef>, inner: Box<TypeNode> },
    ReferenceMut { lifetime: Option<LifetimeRef>, inner: Box<TypeNode> },
    Dereference(Box<TypeNode>),
    TraitObject(Vec<TypeParamBound>),
    DataStructure { name: Ident, generics: Generics, data: Data<Type> },
    Path(Path),
    TypeParam(TypeParamRef),
}

/// What a type is, with sequences in place of vectors: two types are the
/// same type exactly when their views are equal.
pub enum TypeView {
    Infer,
    Tuple(Seq<TypeView>),
    PrimitiveStr,
    Reference { lifetime: Option<LifetimeRef>, inner: Box<TypeView> },
    ReferenceMut { lifetime: Option<LifetimeRef>, inner: Box<TypeView> },
    Dereference(Box<TypeView>),
    TraitObject(Seq<BoundView>),
    DataStructure { name: Seq<char>, generics: GenericsView, data: DataView },
    Path(PathView),
    TypeParam(TypeParamRef),
}

impl TypeNode {
    pub open spec fn view(&self) -> TypeView
        decreases self,
    {
        match self {
            TypeNode::Infer => TypeView::Infer,
            TypeNode::Tuple(types) => TypeView::Tuple(types_view(types@)),
            TypeNode::PrimitiveStr => TypeView::PrimitiveStr,
            TypeNode::Reference { lifetime, inner } => TypeView::Reference {
                lifetime: *lifetime,
                inner: Box::new(inner.view()),
            },
            TypeNode::ReferenceMut { lifetime, inner } => TypeView::ReferenceMut {
                lifetime: *lifetime,
                inner: Box::new(inner.view()),
            },
            TypeNode::Dereference(inner) => TypeView::Dereference(Box::new(inner.view())),
            TypeNode::TraitObject(bounds) => TypeView::TraitObject(bounds_view(bounds@)),
            TypeNode::DataStructure { name, generics, data } => TypeView::DataStructure {
                name: name@,
                generics: generics.view(),
                data: data.view(),
            },
            TypeNode::Path(path) => TypeView::Path(path.view()),
            TypeNode::TypeParam(param) => TypeView::TypeParam(*param),
        }
    }
}

impl Type {
    pub open spec fn view(&self) -> TypeView
        decreases self,
    {
        self.0.view()
    }
}

/// The views of a list of types.
pub open spec fn types_view(s: Seq<Type>) -> Seq<TypeView>
    decreases s,
{
    Seq::new(
        s.len(),
        |i: int|
            if 0 <= i < s.len() {
                s[i].view()
            } else {
                arbitrary()
            },
    )
}

impl Clone for TypeNode {
    fn clone(&self) -> (res: Self)
        ensures
            res@ == self@,
        decreases self,
    {
        match self {
            TypeNode::Infer => TypeNode::Infer,
            TypeNode::Tuple(types) => TypeNode::Tuple(clone_types(types)),
            TypeNode::PrimitiveStr => TypeNode::PrimitiveStr,
            TypeNode::Reference { lifetime, inner } => TypeNode::Reference {
                lifetime: *lifetime,
                inner: Box::new((**inner).clone()),
            },
            TypeNode::ReferenceMut { lifetime, inner } => TypeNode::ReferenceMut {
                lifetime: *lifetime,
                inner: Box::new((**inner).clone()),
            },
            TypeNode::Dereference(inner) => TypeNode::Dereference(Box::new((**inner).clone())),
            TypeNode::TraitObject(bounds) => TypeNode::TraitObject(clone_bounds(bounds)),
            TypeNode::DataStructure { name, generics, data } => TypeNode::DataStructure {
                name: name.clone(),
                generics: generics.clone(),
                data: data.clone(),
            },
            TypeNode::Path(path) => TypeNode::Path(path.clone()),
            TypeNode::TypeParam(param) => TypeNode::TypeParam(*param),
        }
    }
}

impl Clone for Type {
    fn clone(&self) -> (res: Self)
        ensures
            res@ == self@,
        decreases self,
    {
        Type(self.0.clone())
    }
}

/// Copies a list of types.
#[verifier::loop_isolation(false)]
pub fn clone_types(v: &Vec<Type>) -> (res: Vec<Type>)
    ensures
        types_view(res@) == types_view(v@),
    decreases v,
{
    let mut out: Vec<Type> = Vec::new();
    let mut i: usize = 0;
    while i < v.len()
        invariant
            i <= v.len(),
            out@.len() == i,
            forall|j: int| 0 <= j < i ==> out@[j]@ == v@[j]@,
        decreases v.len() - i,
    {
        out.push(v[i].clone());
        i += 1;
    }
    assert(types_view(out@) =~= types_view(v@));
    out
}

impl PartialEq for TypeNode {
    fn eq(&self, other: &Self) -> (res: bool)
        decreases self,
    {
        match (self, other) {
            (TypeNode::Infer, TypeNode::Infer) => true,
            (TypeNode::Tuple(a), TypeNode::Tuple(b)) => eq_types(a, b),
            (TypeNode::PrimitiveStr, TypeNode::PrimitiveStr) => true,
            (
                TypeNode::Reference { lifetime: l1, inner: a },
                TypeNode::Reference { lifetime: l2, inner: b },
            ) => eq_lifetime(l1, l2) && **a == **b,
            (
                TypeNode::ReferenceMut { lifetime: l1, inner: a },
                TypeNode::ReferenceMut { lifetime: l2, inner: b },
            ) => eq_lifetime(l1, l2) && **a == **b,
            (TypeNode::Dereference(a), TypeNode::Dereference(b)) => **a == **b,
            (TypeNode::TraitObject(a), TypeNode::TraitObject(b)) => eq_bounds(a, b),
            (
                TypeNode::DataStructure { name: n1, generics: g1, data: d1 },
                TypeNode::DataStructure { name: n2, generics: g2, data: d2 },
            ) => *n1 == *n2 && *g1 == *g2 && *d1 == *d2,
            (TypeNode::Path(a), TypeNode::Path(b)) => *a == *b,
            (TypeNode::TypeParam(a), TypeNode::TypeParam(b)) => *a == *b,
            _ => false,
        }
    }
}

impl PartialEqSpecImpl for TypeNode {
    open spec fn obeys_eq_spec() -> bool {
        true
    }

    open spec fn eq_spec(&self, other: &Self) -> bool {
        self@ == other@
    }
}

impl Eq for TypeNode {

}

impl PartialEq for Type {
    fn eq(&self, other: &Self) -> (res: bool)
        decreases self,
    {
        self.0 == other.0
    }
}

impl PartialEqSpecImpl for Type {
    open spec fn obeys_eq_spec() -> bool {
        true
    }

    open spec fn eq_spec(&self, other: &Self) -> bool {
        self@ == other@
    }
}

impl Eq for Type {

}

/// Whether two references carry the same lifetime, or both none.
pub fn eq_lifetime(a: &Option<LifetimeRef>, b: &Option<LifetimeRef>) -> (res: bool)
    ensures
        res == (*a == *b),
{
    match (a, b) {
        (Some(x), Some(y)) => *x == *y,
        (None, None) => true,
        _ => false,
    }
}

/// Whether two lists hold the same types in the same order.
#[verifier::loop_isolation(false)]
pub fn eq_types(a: &Vec<Type>, b: &Vec<Type>) -> (res: bool)
    ensures
        res == (types_view(a@) == types_view(b@)),
    decreases a,
{
    if a.len() != b.len() {
        assert(types_view(a@).len() != types_view(b@).len());
        return false;
    }
    let mut i: usize = 0;
    while i < a.len()
        invariant
            i <= a.len(),
            a.len() == b.len(),
            forall|j: int| 0 <= j < i ==> a@[j]@ == b@[j]@,
        decreases a.len() - i,
    {
        if !(a[i] == b[i]) {
            assert(types_view(a@)[i as int] != types_view(b@)[i as int]);
            return false;
        }
        i += 1;
    }
    assert(types_view(a@) =~= types_view(b@));
    true
}

/// What a reference to a type points to; for any other type, the type
/// behind a dereference of it.
pub open spec fn dereferenced(ty: TypeView) -> TypeView {
    match ty {
        TypeView::Reference { inner, .. } => *inner,
        TypeView::ReferenceMut { inner, .. } => *inner,
        other => TypeView::Dereference(Box::new(other)),
    }
}

/// Whether a type has fields: whether it is a data structure, or a
/// reference to a type that has fields.
pub open spec fn has_data(ty: TypeView) -> bool
    decreases ty,
{
    match ty {
        TypeView::DataStructure { .. } => true,
        TypeView::Reference { inner, .. } => has_data(*inner),
        TypeView::ReferenceMut { inner, .. } => has_data(*inner),
        _ => false,
    }
}

/// A reference to a type, of the given kind and lifetime.
pub open spec fn reference_to(ty: TypeView, lifetime: Option<LifetimeRef>, mutable: bool) -> TypeView {
    if mutable {
        TypeView::ReferenceMut { lifetime, inner: Box::new(ty) }
    } else {
        TypeView::Reference { lifetime, inner: Box::new(ty) }
    }
}

/// The same fields, each behind a reference of the given kind and lifetime.
pub open spec fn referenced(data: DataView, lifetime: Option<LifetimeRef>, mutable: bool) -> DataView {
    DataView {
        fields: Seq::new(
            data.fields.len(),
            |i: int|
                FieldView {
                    accessor: data.fields[i].accessor,
                    element: reference_to(data.fields[i].element, lifetime, mutable),
                },
        ),
    }
}

/// The fields of a type: those of a data structure as they are, those
/// behind a reference as references of the same kind and lifetime.
pub open spec fn data_of(ty: TypeView) -> DataView
    decreases ty,
{
    match ty {
        TypeView::DataStructure { data, .. } => data,
        TypeView::Reference { lifetime, inner } => referenced(data_of(*inner), lifetime, false),
        TypeView::ReferenceMut { lifetime, inner } => referenced(data_of(*inner), lifetime, true),
        _ => DataView { fields: Seq::empty() },
    }
}

/// Puts each field behind a reference of the given kind and lifetime.
fn reference_fields(data: Data<Type>, lifetime: Option<LifetimeRef>, mutable: bool) -> (res: Data<Type>)
    ensures
        res@ == referenced(data@, lifetime, mutable),
{
    let mut fields: Vec<Field<Type>> = Vec::new();
    let mut i: usize = 0;
    while i < data.fields.len()
        invariant
            i <= data.fields.len(),
            fields@.len() == i,
            forall|j: int|
                0 <= j < i ==> (#[trigger] fields@[j])@ == referenced(data@, lifetime, mutable).fields[j],
        decreases data.fields.len() - i,
    {
        let field = &data.fields[i];
        assert(data@.fields[i as int] == field@);
        let inner = Box::new(field.element.0.clone());
        let element = if mutable {
            Type(TypeNode::ReferenceMut { lifetime, inner })
        } else {
            Type(TypeNode::Reference { lifetime, inner })
        };
        fields.push(Field { accessor: field.accessor.clone(), element });
        i += 1;
    }
    let res = Data { fields };
    assert(res@.fields =~= referenced(data@, lifetime, mutable).fields);
    res
}

impl TypeNode {
    /// The fields of the type.
    fn data(&self) -> (res: Data<Type>)
        requires
            has_data(self@),
        ensures
            res@ == data_of(self@),
        decreases self,
    {
        match self {
            TypeNode::DataStructure { data, .. } => data.clone(),
            TypeNode::Reference { lifetime, inner } => reference_fields(
                inner.data(),
                *lifetime,
                false,
            ),
            TypeNode::ReferenceMut { lifetime, inner } => reference_fields(
                inner.data(),
                *lifetime,
                true,
            ),
            _ => Data { fields: Vec::new() },
        }
    }

    /// Whether the type has fields.
    fn has_data(&self) -> (res: bool)
        ensures
            res == has_data(self@),
        decreases self,
    {
        match self {
            TypeNode::DataStructure { .. } => true,
            TypeNode::Reference { inner, .. } => inner.has_data(),
            TypeNode::ReferenceMut { inner, .. } => inner.has_data(),
            _ => false,
        }
    }
}

impl Type {
    /// The type `()`.
    pub fn unit() -> (res: Self)
        ensures
            res@ == TypeView::Tuple(Seq::empty()),
    {
        let res = Type(TypeNode::Tuple(Vec::new()));
        assert(res@->Tuple_0 =~= Seq::<TypeView>::empty());
        res
    }

    /// The tuple of the given types.
    pub fn tuple(types: &[Self]) -> (res: Self)
        ensures
            res@ == TypeView::Tuple(types_view(types@)),
    {
        let mut elements: Vec<Type> = Vec::new();
        let mut i: usize = 0;
        while i < types.len()
            invariant
                i <= types.len(),
                elements@.len() == i,
                forall|j: int| 0 <= j < i ==> (#[trigger] elements@[j])@ == types@[j]@,
            decreases types.len() - i,
        {
            elements.push(types[i].clone());
            i += 1;
        }
        let res = Type(TypeNode::Tuple(elements));
        assert(res@->Tuple_0 =~= types_view(types@));
        res
    }

    /// The type `str`.
    pub fn primitive_str() -> (res: Self)
        ensures
            res@ == TypeView::PrimitiveStr,
    {
        Type(TypeNode::PrimitiveStr)
    }

    /// A shared reference to this type, without a lifetime.
    pub fn reference(&self) -> (res: Self)
        ensures
            res@ == reference_to(self@, None, false),
    {
        Type(TypeNode::Reference { lifetime: None, inner: Box::new(self.0.clone()) })
    }

    /// A mutable reference to this type, without a lifetime.
    pub fn reference_mut(&self) -> (res: Self)
        ensures
            res@ == reference_to(self@, None, true),
    {
        Type(TypeNode::ReferenceMut { lifetime: None, inner: Box::new(self.0.clone()) })
    }

    /// What a reference points to; for any other type, the type behind a
    /// dereference of it.
    pub fn dereference(&self) -> (res: Self)
        ensures
            res@ == dereferenced(self@),
    {
        match &self.0 {
            TypeNode::Reference { inner, .. } => Type((**inner).clone()),
            TypeNode::ReferenceMut { inner, .. } => Type((**inner).clone()),
            other => Type(TypeNode::Dereference(Box::new(other.clone()))),
        }
    }

    /// Whether the type has fields: whether it is a data structure, or a
    /// reference to a type that has fields.
    pub fn has_data(&self) -> (res: bool)
        ensures
            res == has_data(self@),
    {
        self.0.has_data()
    }

    /// The fields of a data structure, or of a reference to one.
    pub fn data(&self) -> (res: Data<Self>)
        requires
            has_data(self@),
        ensures
            res@ == data_of(self@),
    {
        self.0.data()
    }

    /// The number of elements, where the type is a tuple.
    pub fn tuple_len(&self) -> (res: Option<usize>)
        ensures
            res == match self@ {
                TypeView::Tuple(types) => Some(types.len() as usize),
                _ => None,
            },
    {
        match &self.0 {
            TypeNode::Tuple(types) => Some(types.len()),
            _ => None,
        }
    }

    /// Returns a Type from a Tuple
    pub fn get_tuple_type(&self, index: usize) -> (res: Self)
        requires
            self@ is Tuple,
            index < self@->Tuple_0.len(),
        ensures
            res@ == self@->Tuple_0[index as int],
    {
        match &self.0 {
            TypeNode::Tuple(types) => types[index].clone(),
            _ => Type(TypeNode::Infer),
        }
    }
}

/// The bound that a plain qualified name makes.
pub open spec fn simple_bound(path: PathView) -> BoundView {
    BoundView::Trait { lifetimes: Seq::empty(), path }
}

/// The trait object of the traits that some paths name.
pub open spec fn trait_object_of(paths: Seq<PathView>) -> TypeView {
    TypeView::TraitObject(Seq::new(paths.len(), |i: int| simple_bound(paths[i])))
}

/// Whether a type is a trait object of so many traits, each a plain
/// qualified name.
pub open spec fn is_simple_trait_object(ty: TypeView, traits: nat) -> bool {
    &&& ty is TraitObject
    &&& ty->TraitObject_0.len() == traits
    &&& forall|i: int|
        0 <= i < traits ==> {
            &&& (#[trigger] ty->TraitObject_0[i]) is Trait
            &&& ty->TraitObject_0[i]->lifetimes == Seq::<LifetimeRef>::empty()
            &&& is_simple(ty->TraitObject_0[i]->path)
        }
}

impl Type {
    /// The trait object of the traits that some paths name.
    pub fn trait_object_of_paths(paths: Vec<Path>) -> (res: Self)
        ensures
            res@ == trait_object_of(paths_view(paths@)),
    {
        let ghost views = paths_view(paths@);
        let mut paths = paths;
        let mut reversed: Vec<TypeParamBound> = Vec::new();
        while paths.len() > 0
            invariant
                paths@.len() <= views.len(),
                forall|j: int| 0 <= j < paths@.len() ==> (#[trigger] paths@[j])@ == views[j],
                reversed@.len() == views.len() - paths@.len(),
                forall|j: int|
                    0 <= j < reversed@.len() ==> (#[trigger] reversed@[j])@ == simple_bound(
                        views[views.len() - 1 - j],
                    ),
            decreases paths.len(),
        {
            match paths.pop() {
                Some(path) => {
                    reversed.push(TypeParamBound::Trait(TraitBound { lifetimes: Vec::new(), path }));
                },
                None => {},
            }
        }
        let mut bounds: Vec<TypeParamBound> = Vec::new();
        while reversed.len() > 0
            invariant
                bounds@.len() + reversed@.len() == views.len(),
                forall|j: int|
                    0 <= j < bounds@.len() ==> (#[trigger] bounds@[j])@ == simple_bound(views[j]),
                forall|j: int|
                    0 <= j < reversed@.len() ==> (#[trigger] reversed@[j])@ == simple_bound(
                        views[views.len() - 1 - j],
                    ),
            decreases reversed.len(),
        {
            match reversed.pop() {
                Some(bound) => {
                    bounds.push(bound);
                },
                None => {},
            }
        }
        let res = Type(TypeNode::TraitObject(bounds));
        assert(res@->TraitObject_0 =~= trait_object_of(views)->TraitObject_0);
        res
    }

    /// Get a trait object without generics: the trait object of the traits
    /// that the source texts name, if each of them spells a plain qualified
    /// name. Each text is read by `Path::simple_path_from_str`, and the
    /// paths are put together by `trait_object_of_paths`. Whatever the
    /// paths were, a type that comes back is a trait object of as many
    /// traits as there are texts, each a plain qualified name.
    #[verifier::loop_isolation(false)]
    pub fn get_simple_trait_object(type_param_bounds: &[&str]) -> (res: Option<Self>)
        ensures
            res matches Some(ty) ==> is_simple_trait_object(ty@, type_param_bounds@.len()),
    {
        let mut paths: Vec<Path> = Vec::new();
        let mut i: usize = 0;
        while i < type_param_bounds.len()
            invariant
                i <= type_param_bounds.len(),
                paths@.len() == i,
                forall|j: int| 0 <= j < i ==> is_simple((#[trigger] paths@[j])@),
            decreases type_param_bounds.len() - i,
        {
            match Path::simple_path_from_str(type_param_bounds[i]) {
                Some(path) => {
                    paths.push(path);
                },
                None => {
                    return None;
                },
            }
            i += 1;
        }
        Some(Type::trait_object_of_paths(paths))
    }
}

/// The views of a list of paths.
pub open spec fn paths_view(paths: Seq<Path>) -> Seq<PathView> {
    Seq::new(paths.len(), |i: int| paths[i]@)
}

/// No generic parameters and no constraints.
pub open spec fn no_generics() -> GenericsView {
    GenericsView { params: Seq::empty(), constraints: Seq::empty() }
}

/// The generic parameters and constraints that come with the name of a
/// type: those that a data structure declares, a type parameter itself,
/// and for a reference those of what it points to. A placeholder, a
/// dereference and a trait object of several bounds, or of none, have no
/// name.
pub open spec fn named_generics(ty: TypeView) -> Result<GenericsView, InferenceError>
    decreases ty,
{
    match ty {
        TypeView::Infer => Err(InferenceError::UnsupportedConstruct),
        TypeView::Tuple(_) => Ok(no_generics()),
        TypeView::PrimitiveStr => Ok(no_generics()),
        TypeView::Reference { inner, .. } => named_generics(*inner),
        TypeView::ReferenceMut { inner, .. } => named_generics(*inner),
        TypeView::Dereference(_) => Err(InferenceError::UnsupportedConstruct),
        TypeView::TraitObject(bounds) => if bounds.len() == 1 {
            Ok(no_generics())
        } else {
            Err(InferenceError::UnsupportedConstruct)
        },
        TypeView::DataStructure { generics, .. } => Ok(generics),
        TypeView::Path(_) => Ok(no_generics()),
        TypeView::TypeParam(type_param_ref) => Ok(
            GenericsView {
                params: seq![GenericParam::Type(type_param_ref)],
                constraints: Seq::empty(),
            },
        ),
    }
}

/// The view of some generics or the failure in their place.
pub open spec fn generics_result_view(res: Result<Generics, InferenceError>) -> Result<
    GenericsView,
    InferenceError,
> {
    match res {
        Ok(generics) => Ok(generics@),
        Err(error) => Err(error),
    }
}

impl TypeNode {
    /// The generic parameters and constraints that come with the name of
    /// the type.
    pub fn generics_of_name(&self) -> (res: Result<Generics, InferenceError>)
        ensures
            generics_result_view(res) == named_generics(self@),
        decreases self,
    {
        match self {
            TypeNode::Infer => Err(InferenceError::UnsupportedConstruct),
            TypeNode::Reference { inner, .. } => inner.generics_of_name(),
            TypeNode::ReferenceMut { inner, .. } => inner.generics_of_name(),
            TypeNode::Dereference(_) => Err(InferenceError::UnsupportedConstruct),
            TypeNode::TraitObject(type_param_bound) => {
                assert(self@ == TypeView::TraitObject(bounds_view(type_param_bound@)));
                assert(bounds_view(type_param_bound@).len() == type_param_bound@.len());
                if type_param_bound.len() != 1 {
                    return Err(InferenceError::UnsupportedConstruct);
                }
                let res = Generics { params: Vec::new(), constraints: Vec::new() };
                assert(res@.constraints =~= Seq::<crate::generics::ConstraintView>::empty());
                Ok(res)
            },
            TypeNode::DataStructure { generics, .. } => Ok(generics.clone()),
            TypeNode::TypeParam(type_param_ref) => {
                let mut params: Vec<GenericParam> = Vec::new();
                params.push(GenericParam::Type(*type_param_ref));
                let res = Generics { params, constraints: Vec::new() };
                assert(res@.params =~= seq![GenericParam::Type(*type_param_ref)]);
                assert(res@.constraints =~= Seq::<crate::generics::ConstraintView>::empty());
                Ok(res)
            },
            _ => {
                let res = Generics { params: Vec::new(), constraints: Vec::new() };
                assert(res@.constraints =~= Seq::<crate::generics::ConstraintView>::empty());
                Ok(res)
            },
        }
    }
}

impl Type {
    /// The generic parameters and constraints that come with the name of
    /// the type.
    pub fn generics_of_name(&self) -> (res: Result<Generics, InferenceError>)
        ensures
            generics_result_view(res) == named_generics(self@),
    {
        self.0.generics_of_name()
    }
}

} // verus!
