//! Names and the stable identities of generic parameters.

use vstd::prelude::*;
use vstd::std_specs::cmp::PartialEqSpecImpl;

verus! {

/// The name of an item, of a field or of one segment of a path.
#[derive(Debug)]
pub struct Ident {
    pub name: String,
}

impl Ident {
    /// The characters of the name.
    pub open spec fn view(&self) -> Seq<char> {
        self.name@
    }

    pub fn new(name: &str) -> (res: Self)
        ensures
            res@ == name@,
    {
        Ident { name: name.to_owned() }
    }

    pub fn as_str(&self) -> (res: &str)
        ensures
            res@ == self@,
    {
        self.name.as_str()
    }
}

impl Clone for Ident {
    fn clone(&self) -> (res: Self)
        ensures
            res@ == self@,
    {
        Ident { name: self.name.clone() }
    }
}

impl PartialEq for Ident {
    fn eq(&self, other: &Self) -> (res: bool) {
        self.name == other.name
    }
}

impl PartialEqSpecImpl for Ident {
    open spec fn obeys_eq_spec() -> bool {
        true
    }

    open spec fn eq_spec(&self, other: &Self) -> bool {
        self@ == other@
    }
}

impl Eq for Ident {

}

/// Stable identity of a type parameter.
#[derive(Debug, Clone, Copy, PartialEq, Eq, Structural, PartialOrd, Ord, Hash)]
pub struct TypeParamRef(pub usize);

/// Stable identity of a lifetime parameter.
#[derive(Debug, Clone, Copy, PartialEq, Eq, Structural, PartialOrd, Ord, Hash)]
pub struct LifetimeRef(pub usize);

/// A generic parameter of either kind.
#[derive(Debug, Clone, Copy, PartialEq, Eq, Structural, PartialOrd, Ord, Hash)]
pub enum GenericParam {
    Type(TypeParamRef),
    Lifetime(LifetimeRef),
}

impl GenericParam {
    /// The type parameter that this is, if it is one.
    pub fn type_param_ref(self) -> (res: Option<TypeParamRef>)
        ensures
            res == match self {
                GenericParam::Type(r) => Some(r),
                GenericParam::Lifetime(_) => None,
            },
    {
        match self {
            GenericParam::Type(r) => Some(r),
            GenericParam::Lifetime(_) => None,
        }
    }

    /// The lifetime parameter that this is, if it is one.
    pub fn lifetime_ref(self) -> (res: Option<LifetimeRef>)
        ensures
            res == match self {
                GenericParam::Type(_) => None,
                GenericParam::Lifetime(r) => Some(r),
            },
    {
        match self {
            GenericParam::Type(_) => None,
            GenericParam::Lifetime(r) => Some(r),
        }
    }
}

/// Copies a list of lifetimes.
pub fn clone_lifetimes(v: &Vec<LifetimeRef>) -> (res: Vec<LifetimeRef>)
    ensures
        res@ == v@,
{
    let mut out: Vec<LifetimeRef> = Vec::new();
    let mut i: usize = 0;
    while i < v.len()
        invariant
            i <= v.len(),
            out@ == v@.take(i as int),
        decreases v.len() - i,
    {
        out.push(v[i]);
        assert(v@.take(i + 1) =~= v@.take(i as int).push(v@[i as int]));
        i += 1;
    }
    assert(v@.take(v@.len() as int) =~= v@);
    out
}

/// Whether two lists hold the same lifetimes in the same order.
pub fn eq_lifetimes(a: &Vec<LifetimeRef>, b: &Vec<LifetimeRef>) -> (res: bool)
    ensures
        res == (a@ == b@),
{
    if a.len() != b.len() {
        return false;
    }
    let mut i: usize = 0;
    while i < a.len()
        invariant
            i <= a.len(),
            a.len() == b.len(),
            forall|j: int| 0 <= j < i ==> a@[j] == b@[j],
        decreases a.len() - i,
    {
        if a[i] != b[i] {
            return false;
        }
        i += 1;
    }
    assert(a@ =~= b@);
    true
}

/// Copies a list of generic parameters.
pub fn clone_params(v: &Vec<GenericParam>) -> (res: Vec<GenericParam>)
    ensures
        res@ == v@,
{
    let mut out: Vec<GenericParam> = Vec::new();
    let mut i: usize = 0;
    while i < v.len()
        invariant
            i <= v.len(),
            out@ == v@.take(i as int),
        decreases v.len() - i,
    {
        out.push(v[i]);
        assert(v@.take(i + 1) =~= v@.take(i as int).push(v@[i as int]));
        i += 1;
    }
    assert(v@.take(v@.len() as int) =~= v@);
    out
}

/// Whether two lists hold the same generic parameters in the same order.
pub fn eq_params(a: &Vec<GenericParam>, b: &Vec<GenericParam>) -> (res: bool)
    ensures
        res == (a@ == b@),
{
    if a.len() != b.len() {
        return false;
    }
    let mut i: usize = 0;
    while i < a.len()
        invariant
            i <= a.len(),
            a.len() == b.len(),
            forall|j: int| 0 <= j < i ==> a@[j] == b@[j],
        decreases a.len() - i,
    {
        if a[i] != b[i] {
            return false;
        }
        i += 1;
    }
    assert(a@ =~= b@);
    true
}

} // verus!
