//! Borrowed, non-owning views over stored values.
//!
//! A `ReflectValueRef` mirrors `ReflectValueBox` but points into existing
//! storage, so comparisons and map lookups need not clone; its lifetime is
//! bound to the storage it views.

use vstd::prelude::*;

use crate::mapfield::MapFieldRef;
use crate::model::{map_view, ValueModel};
use crate::repeated::RepeatedFieldRef;
use crate::types::{entry_model, lemma_entries_model, lemma_values_model, ReflectValueBox};

verus! {

broadcast use vstd::seq::group_seq_axioms, vstd::std_specs::vec::group_vec_axioms;

/// A borrowed view over one stored value.
pub struct ReflectValueRef<'a> {
    pub value: &'a ReflectValueBox,
}

impl<'a> View for ReflectValueRef<'a> {
    type V = ValueModel;

    open spec fn view(&self) -> ValueModel {
        self.value@
    }
}

impl<'a> ReflectValueRef<'a> {
    /// Structural equality of the viewed values, without cloning either.
    pub fn value_eq(&self, other: &ReflectValueRef<'_>) -> (r: bool)
        ensures
            r == (self@ == other@),
    {
        self.value.value_eq(other.value)
    }

    /// An owned copy of the viewed value.
    pub fn to_box(&self) -> (r: ReflectValueBox)
        ensures
            r@ == self@,
    {
        self.value.deep_clone()
    }
}

impl ReflectValueBox {
    /// A borrowed view over this value.
    pub fn as_value_ref(&self) -> (r: ReflectValueRef<'_>)
        ensures
            r@ == self@,
    {
        ReflectValueRef { value: self }
    }
}

impl RepeatedFieldRef {
    /// A borrowed view of the element at one index, without cloning.
    pub fn get_ref(&self, index: usize) -> (r: ReflectValueRef<'_>)
        requires
            index < self@.len(),
        ensures
            r@ == self@[index as int],
    {
        proof {
            lemma_values_model(self.elems@);
        }
        ReflectValueRef { value: &self.elems[index] }
    }
}

impl MapFieldRef {
    /// Looks a key up without cloning: a borrowed view of the stored value,
    /// or nothing when the key is absent.
    #[verifier::loop_isolation(false)]
    pub fn get_ref<'a>(&'a self, key: &ReflectValueBox) -> (r: Option<ReflectValueRef<'a>>)
        requires
            self.wf(),
        ensures
            match r {
                Some(v) => map_view(self@).contains_key(key@) && v@ == map_view(self@)[key@],
                None => !map_view(self@).contains_key(key@),
            },
    {
        broadcast use lemma_entries_model;

        let ghost es = self@;
        let mut i: usize = 0;
        while i < self.entries.len()
            invariant
                i <= self.entries.len(),
                forall|j: int| 0 <= j < i ==> (#[trigger] es[j]).0 != key@,
            decreases self.entries.len() - i,
        {
            if self.entries[i].0.value_eq(key) {
                proof {
                    assert(es[i as int] == entry_model(self.entries@[i as int]));
                    assert(es[i as int].0 == key@);
                    crate::model::lemma_map_view_membership(es, key@);
                    crate::model::lemma_map_view_get(es, i as int);
                }
                return Some(ReflectValueRef { value: &self.entries[i].1 });
            }
            proof {
                assert(es[i as int] == entry_model(self.entries@[i as int]));
            }
            i += 1;
        }
        proof {
            crate::model::lemma_map_view_membership(es, key@);
        }
        None
    }
}

} // verus!
