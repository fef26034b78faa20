//! Attributes of elements.

use vstd::prelude::*;
use crate::common::copy_chars;
use crate::name::{NameView, OwnedName};

verus! {

/// An attribute: a name and a value.
pub struct AttrView {
    pub name: NameView,
    pub value: Seq<char>,
}

/// An attribute of an element.
#[derive(Clone, Debug, PartialEq, Eq)]
pub struct OwnedAttribute {
    /// The attribute's name.
    pub name: OwnedName,
    /// The attribute's value.
    pub value: Vec<char>,
}

impl View for OwnedAttribute {
    type V = AttrView;

    open spec fn view(&self) -> AttrView {
        AttrView { name: self.name@, value: self.value@ }
    }
}

/// The views of a sequence of attributes.
pub open spec fn attrs_view(s: Seq<OwnedAttribute>) -> Seq<AttrView> {
    s.map_values(|a: OwnedAttribute| a@)
}

impl OwnedAttribute {
    /// An attribute with the given name and value.
    pub fn new(name: OwnedName, value: Vec<char>) -> (r: OwnedAttribute)
        ensures
            r@ == (AttrView { name: name@, value: value@ }),
    {
        OwnedAttribute { name, value }
    }

    /// A copy of this attribute.
    pub fn duplicate(&self) -> (r: OwnedAttribute)
        ensures
            r@ == self@,
    {
        OwnedAttribute { name: self.name.duplicate(), value: copy_chars(&self.value) }
    }
}

/// A copy of a list of attributes.
pub fn copy_attributes(v: &Vec<OwnedAttribute>) -> (r: Vec<OwnedAttribute>)
    ensures
        attrs_view(r@) == attrs_view(v@),
{
    let mut r: Vec<OwnedAttribute> = Vec::new();
    let mut i: usize = 0;
    while i < v.len()
        invariant
            i <= v.len(),
            r.len() == i,
            attrs_view(r@) == attrs_view(v@.subrange(0, i as int)),
        decreases v.len() - i,
    {
        let a = v[i].duplicate();
        let ghost before = r@;
        r.push(a);
        i = i + 1;
        assert forall|j: int| 0 <= j < i implies attrs_view(r@)[j] == attrs_view(
            v@.subrange(0, i as int),
        )[j] by {
            if j < i - 1 {
                assert(r@[j] == before[j]);
                assert(attrs_view(before)[j] == attrs_view(v@.subrange(0, i - 1))[j]);
            }
        }
        assert(attrs_view(r@) =~= attrs_view(v@.subrange(0, i as int)));
    }
    assert(v@.subrange(0, v.len() as int) =~= v@);
    r
}

} // verus!
