//! Font families, as the text properties name them.

use vstd::prelude::*;
use vstd::string::StringExecFns;
use crate::fold::Modeled;

verus! {

/// A font family, known by its name.
#[derive(Debug, PartialEq, Eq, Hash)]
pub struct FontFamily {
    /// The name of the family.
    pub name: String,
}

impl FontFamily {
    /// The family of the given name.
    pub fn new(name: &str) -> (family: FontFamily)
        ensures
            family.name@ == name@,
    {
        FontFamily { name: String::from_str(name) }
    }

    /// The name of the family.
    pub fn as_str(&self) -> (name: &str)
        ensures
            name@ == self.name@,
    {
        self.name.as_str()
    }
}

impl Clone for FontFamily {
    fn clone(&self) -> (copy: FontFamily)
        ensures
            copy == *self,
    {
        FontFamily { name: self.name.clone() }
    }
}

/// Font families by priority: the first that covers a character is used.
#[derive(Debug, PartialEq, Eq, Hash)]
pub struct FontList(pub Vec<FontFamily>);

/// The names of the families, in order.
impl Modeled for FontList {
    type Model = Seq<Seq<char>>;

    open spec fn model(&self) -> Seq<Seq<char>> {
        self.0@.map_values(|family: FontFamily| family.name@)
    }
}

impl FontList {
    /// The list that holds `preferred` first and then the families of
    /// `existing`.
    pub fn prepended(preferred: FontFamily, existing: &FontList) -> (list: FontList)
        ensures
            list.model() == seq![preferred.name@] + existing.model(),
    {
        let ghost first = preferred.name@;
        let mut families: Vec<FontFamily> = Vec::new();
        families.push(preferred);
        let mut i: usize = 0;
        while i < existing.0.len()
            invariant
                i <= existing.0.len(),
                families@.len() == i + 1,
                families@[0].name@ == first,
                forall|j: int| 0 <= j < i ==> (#[trigger] families@[j + 1]) == existing.0@[j],
            decreases existing.0.len() - i,
        {
            families.push(existing.0[i].clone());
            i += 1;
        }
        let list = FontList(families);
        assert(list.model() =~= seq![first] + existing.model()) by {
            assert forall|j: int| 0 <= j < list.model().len() implies list.model()[j] == (seq![
                first,
            ] + existing.model())[j] by {
                if j > 0 {
                    assert(families@[(j - 1) + 1] == existing.0@[j - 1]);
                }
            }
        }
        list
    }
}

impl Clone for FontList {
    fn clone(&self) -> (copy: FontList)
        ensures
            copy.model() == self.model(),
    {
        let mut families: Vec<FontFamily> = Vec::new();
        let mut i: usize = 0;
        while i < self.0.len()
            invariant
                i <= self.0.len(),
                families@ == self.0@.subrange(0, i as int),
            decreases self.0.len() - i,
        {
            families.push(self.0[i].clone());
            i += 1;
        }
        assert(families@ =~= self.0@);
        FontList(families)
    }
}

} // verus!
