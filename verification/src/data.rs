//! The fields of a data structure.

use crate::ident::Ident;
use crate::ty::{Type, TypeView};
use vstd::prelude::*;
use vstd::std_specs::cmp::PartialEqSpecImpl;

verus! {

/// How a field is reached: by its name or by its position.
#[derive(Debug)]
pub enum Accessor {
    Name(Ident),
    Index(usize),
}

pub enum AccessorView {
    Name(Seq<char>),
    Index(usize),
}

impl Accessor {
    pub open spec fn view(&self) -> AccessorView {
        match self {
            Accessor::Name(ident) => AccessorView::Name(ident@),
            Accessor::Index(index) => AccessorView::Index(*index),
        }
    }
}

impl Clone for Accessor {
    fn clone(&self) -> (res: Self)
        ensures
            res@ == self@,
    {
        match self {
            Accessor::Name(ident) => Accessor::Name(ident.clone()),
            Accessor::Index(index) => Accessor::Index(*index),
        }
    }
}

impl PartialEq for Accessor {
    fn eq(&self, other: &Self) -> (res: bool) {
        match (self, other) {
            (Accessor::Name(a), Accessor::Name(b)) => *a == *b,
            (Accessor::Index(a), Accessor::Index(b)) => *a == *b,
            _ => false,
        }
    }
}

impl PartialEqSpecImpl for Accessor {
    open spec fn obeys_eq_spec() -> bool {
        true
    }

    open spec fn eq_spec(&self, other: &Self) -> bool {
        self@ == other@
    }
}

impl Eq for Accessor {

}

/// One field of a data structure, with what stands for its content.
#[derive(Debug)]
pub struct Field<T> {
    pub accessor: Accessor,
    pub element: T,
}

/// The fields of a data structure, in declaration order.
#[derive(Debug)]
pub struct Data<T> {
    pub fields: Vec<Field<T>>,
}

pub struct FieldView {
    pub accessor: AccessorView,
    pub element: TypeView,
}

pub struct DataView {
    pub fields: Seq<FieldView>,
}

impl Field<Type> {
    pub open spec fn view(&self) -> FieldView
        decreases self,
    {
        FieldView { accessor: self.accessor@, element: self.element.view() }
    }
}

/// The views of a list of fields.
pub open spec fn fields_view(s: Seq<Field<Type>>) -> Seq<FieldView>
    decreases s,
{
    Seq::new(
        s.len(),
        |i: int|
            if 0 <= i < s.len() {
                s[i].view()
            } else {
                arbitrary()
            },
    )
}

impl Data<Type> {
    pub open spec fn view(&self) -> DataView
        decreases self,
    {
        DataView { fields: fields_view(self.fields@) }
    }
}

impl Clone for Field<Type> {
    fn clone(&self) -> (res: Self)
        ensures
            res@ == self@,
        decreases self,
    {
        Field { accessor: self.accessor.clone(), element: self.element.clone() }
    }
}

impl PartialEq for Field<Type> {
    fn eq(&self, other: &Self) -> (res: bool)
        decreases self,
    {
        self.accessor == other.accessor && self.element == other.element
    }
}

impl PartialEqSpecImpl for Field<Type> {
    open spec fn obeys_eq_spec() -> bool {
        true
    }

    open spec fn eq_spec(&self, other: &Self) -> bool {
        self@ == other@
    }
}

impl Eq for Field<Type> {

}

/// Copies a list of fields.
#[verifier::loop_isolation(false)]
pub fn clone_fields(v: &Vec<Field<Type>>) -> (res: Vec<Field<Type>>)
    ensures
        fields_view(res@) == fields_view(v@),
    decreases v,
{
    let mut out: Vec<Field<Type>> = Vec::new();
    let mut i: usize = 0;
    while i < v.len()
        invariant
            i <= v.len(),
            out@.len() == i,
            forall|j: int| 0 <= j < i ==> out@[j]@ == v@[j]@,
        decreases v.len() - i,
    {
        out.push(v[i].clone());
        i += 1;
    }
    assert(fields_view(out@) =~= fields_view(v@));
    out
}

/// Whether two lists hold the same fields in the same order.
#[verifier::loop_isolation(false)]
pub fn eq_fields(a: &Vec<Field<Type>>, b: &Vec<Field<Type>>) -> (res: bool)
    ensures
        res == (fields_view(a@) == fields_view(b@)),
    decreases a,
{
    if a.len() != b.len() {
        assert(fields_view(a@).len() != fields_view(b@).len());
        return false;
    }
    let mut i: usize = 0;
    while i < a.len()
        invariant
            i <= a.len(),
            a.len() == b.len(),
            forall|j: int| 0 <= j < i ==> a@[j]@ == b@[j]@,
        decreases a.len() - i,
    {
        if !(a[i] == b[i]) {
            assert(fields_view(a@)[i as int] != fields_view(b@)[i as int]);
            return false;
        }
        i += 1;
    }
    assert(fields_view(a@) =~= fields_view(b@));
    true
}

impl Clone for Data<Type> {
    fn clone(&self) -> (res: Self)
        ensures
            res@ == self@,
        decreases self,
    {
        Data { fields: clone_fields(&self.fields) }
    }
}

impl PartialEq for Data<Type> {
    fn eq(&self, other: &Self) -> (res: bool)
        decreases self,
    {
        eq_fields(&self.fields, &other.fields)
    }
}

impl PartialEqSpecImpl for Data<Type> {
    open spec fn obeys_eq_spec() -> bool {
        true
    }

    open spec fn eq_spec(&self, other: &Self) -> bool {
        self@ == other@
    }
}

impl Eq for Data<Type> {

}

} // verus!
