//! The generic parameters in scope, by name.

use crate::ident::{GenericParam, Ident};
use vstd::prelude::*;

verus! {

/// The generic parameters that a piece of syntax may name: what tells a
/// generic parameter of the implementation from a type of that name.
#[derive(Debug)]
pub struct ParamMap {
    entries: Vec<(Ident, GenericParam)>,
}

/// The map that a list of entries stands for: of two entries for one name
/// the later one counts.
pub open spec fn entries_params(s: Seq<(Ident, GenericParam)>) -> Map<Seq<char>, GenericParam>
    decreases s.len(),
{
    if s.len() == 0 {
        Map::empty()
    } else {
        entries_params(s.drop_last()).insert(s.last().0@, s.last().1)
    }
}

proof fn lemma_params_absent(s: Seq<(Ident, GenericParam)>, name: Seq<char>)
    requires
        forall|j: int| 0 <= j < s.len() ==> (#[trigger] s[j]).0@ != name,
    ensures
        !entries_params(s).contains_key(name),
    decreases s.len(),
{
    if s.len() > 0 {
        assert(s.last().0@ != name);
        assert forall|j: int| 0 <= j < s.drop_last().len() implies (#[trigger] s.drop_last()[j]).0@
            != name by {
            assert(s.drop_last()[j] == s[j]);
        }
        lemma_params_absent(s.drop_last(), name);
    }
}

proof fn lemma_params_last(s: Seq<(Ident, GenericParam)>, i: int, name: Seq<char>)
    requires
        0 <= i < s.len(),
        s[i].0@ == name,
        forall|j: int| i < j < s.len() ==> (#[trigger] s[j]).0@ != name,
    ensures
        entries_params(s).contains_key(name),
        entries_params(s)[name] == s[i].1,
    decreases s.len(),
{
    if i < s.len() - 1 {
        assert(s.last().0@ != name);
        assert forall|j: int| i < j < s.drop_last().len() implies (#[trigger] s.drop_last()[j]).0@
            != name by {
            assert(s.drop_last()[j] == s[j]);
        }
        assert(s.drop_last()[i] == s[i]);
        lemma_params_last(s.drop_last(), i, name);
    }
}

impl ParamMap {
    /// The parameter that each name stands for.
    pub closed spec fn view(&self) -> Map<Seq<char>, GenericParam> {
        entries_params(self.entries@)
    }

    pub fn new() -> (res: Self)
        ensures
            res@ == Map::<Seq<char>, GenericParam>::empty(),
    {
        ParamMap { entries: Vec::new() }
    }

    /// Lets a name stand for a parameter, in place of what it stood for.
    pub fn insert(&mut self, ident: Ident, param: GenericParam)
        ensures
            final(self)@ == old(self)@.insert(ident@, param),
    {
        self.entries.push((ident, param));
        assert(self.entries@.drop_last() =~= old(self).entries@);
    }

    /// The parameter that a name stands for, if it stands for one.
    pub fn get(&self, ident: &Ident) -> (res: Option<GenericParam>)
        ensures
            res == if self@.contains_key(ident@) {
                Some(self@[ident@])
            } else {
                None
            },
    {
        let mut i: usize = self.entries.len();
        while i > 0
            invariant
                i <= self.entries.len(),
                forall|j: int| i <= j < self.entries@.len() ==> (#[trigger] self.entries@[j]).0@ != ident@,
            decreases i,
        {
            i -= 1;
            if self.entries[i].0 == *ident {
                proof {
                    lemma_params_last(self.entries@, i as int, ident@);
                }
                return Some(self.entries[i].1);
            }
        }
        proof {
            lemma_params_absent(self.entries@, ident@);
        }
        None
    }
}

} // verus!
