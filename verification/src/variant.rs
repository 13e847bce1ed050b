//! The variant union: a value holding exactly one of the closed set of
//! concrete types implementing an interface, tagged by the variant it was
//! constructed from.

use vstd::prelude::*;
use crate::decl::InterfaceSpec;
use crate::decl::InterfaceSpecModel;
use crate::decl::find_variant;
use crate::decl::find_variant_from;

verus! {

/// A runtime value of the interface: exactly one concrete object instance,
/// tagged by the declared variant it was constructed from. `O` is the
/// caller's representation of concrete object instances; this crate never
/// looks inside it.
#[derive(Debug)]
pub struct VariantValue<O> {
    pub tag: usize,
    pub object: O,
}

impl<O> VariantValue<O> {
    /// The tag names a declared variant of the interface.
    pub open spec fn wf(self, s: InterfaceSpecModel) -> bool {
        (self.tag as int) < s.variants.len()
    }

    /// Conversion construction from a concrete value, given the index of
    /// the variant it belongs to.
    pub fn from_tag(tag: usize, object: O, ispec: &InterfaceSpec) -> (r: VariantValue<O>)
        requires
            (tag as int) < ispec@.variants.len(),
        ensures
            r.tag == tag,
            r.object == object,
            r.wf(ispec@),
    {
        VariantValue { tag, object }
    }

    /// Conversion construction from a concrete value: tags the object with
    /// the first declared variant whose concrete type name is `name`.
    /// Returns `None` exactly when no variant declares that name.
    pub fn from_concrete(name: &String, object: O, ispec: &InterfaceSpec) -> (r: Option<
        VariantValue<O>,
    >)
        ensures
            match r {
                Some(v) => find_variant(ispec@, name@) == Some(v.tag as int) && v.wf(ispec@)
                    && v.object == object,
                None => find_variant(ispec@, name@) is None,
            },
    {
        match variant_index(ispec, name) {
            Some(tag) => Some(VariantValue { tag, object }),
            None => None,
        }
    }

    /// The GraphQL type name of the currently held concrete value: the
    /// declared name of the variant it was constructed from.
    pub fn concrete_type_name<'a>(&self, ispec: &'a InterfaceSpec) -> (r: &'a String)
        requires
            self.wf(ispec@),
        ensures
            r@ == ispec@.variants[self.tag as int].concrete_type_name,
    {
        &ispec.variants[self.tag].concrete_type_name
    }
}

/// The index of the first declared variant with the given concrete type
/// name, if any.
pub fn variant_index(ispec: &InterfaceSpec, name: &String) -> (r: Option<usize>)
    ensures
        match r {
            Some(i) => (i as int) < ispec@.variants.len() && find_variant(ispec@, name@) == Some(
                i as int,
            ),
            None => find_variant(ispec@, name@) is None,
        },
{
    let mut i: usize = 0;
    while i < ispec.variants.len()
        invariant
            i <= ispec.variants@.len(),
            find_variant(ispec@, name@) == find_variant_from(ispec@, name@, i as int),
        decreases ispec.variants@.len() - i,
    {
        if ispec.variants[i].concrete_type_name == *name {
            return Some(i);
        }
        i = i + 1;
    }
    None
}

pub proof fn lemma_find_variant_from_names(s: InterfaceSpecModel, name: Seq<char>, j: int)
    requires
        0 <= j,
    ensures
        match find_variant_from(s, name, j) {
            Some(t) => j <= t < s.variants.len() && s.variants[t].concrete_type_name == name,
            None => forall|t: int| j <= t < s.variants.len() ==> s.variants[t].concrete_type_name
                != name,
        },
    decreases s.variants.len() - j,
{
    if j < s.variants.len() && s.variants[j].concrete_type_name != name {
        lemma_find_variant_from_names(s, name, j + 1);
    }
}

/// A variant value constructed from a concrete type name reports exactly
/// that name: when `find_variant` places the value's tag, the declared name
/// at the tag is the requested name.
pub proof fn lemma_from_concrete_reports_name(s: InterfaceSpecModel, name: Seq<char>)
    requires
        find_variant(s, name) is Some,
    ensures
        s.variants[find_variant(s, name)->Some_0].concrete_type_name == name,
{
    lemma_find_variant_from_names(s, name, 0);
}

} // verus!
