//! Generic views over a repeated field's backing sequence.
//!
//! `RepeatedFieldRef` is a read-only snapshot of the sequence; the exclusive
//! borrow of the message for a mutation is modelled by ownership transfer:
//! `take_repeated` moves the elements out of the message into a
//! `RepeatedFieldMut`, and `put_repeated` stores them back.

use vstd::prelude::*;

use crate::model::{
    state_matches, value_conforms, values_conform, wf_message, with_state, FieldStateModel,
    TypeModel, ValueModel,
};
use crate::types::{
    lemma_values_model, value_model, values_eq, values_model, DynamicMessage, FieldDescriptor,
    FieldState, ReflectValueBox, RuntimeValueType,
};
use crate::message::lemma_states_model_update;
use crate::types::{lemma_states_model, state_model};
use crate::model::lemma_conforms_states;
use crate::model::lemma_values_conform;

verus! {

broadcast use vstd::seq::group_seq_axioms, vstd::std_specs::vec::group_vec_axioms;

/// Appending one element appends exactly its model.
pub proof fn lemma_values_model_push(vs: Seq<ReflectValueBox>, v: ReflectValueBox)
    ensures
        values_model(vs.push(v)) == values_model(vs).push(value_model(v)),
{
    assert(vs.push(v).drop_last() =~= vs);
    assert(vs.push(v).last() == v);
}

/// A read-only view over a repeated field: the element type and a snapshot
/// of the elements in insertion order.
pub struct RepeatedFieldRef {
    pub elem_type: RuntimeValueType,
    pub elems: Vec<ReflectValueBox>,
}

/// A mutable view over a repeated field, held by value while the message's
/// slot stands empty.
pub struct RepeatedFieldMut {
    pub elem_type: RuntimeValueType,
    pub elems: Vec<ReflectValueBox>,
}

impl View for RepeatedFieldRef {
    type V = Seq<ValueModel>;

    open spec fn view(&self) -> Seq<ValueModel> {
        values_model(self.elems@)
    }
}

impl View for RepeatedFieldMut {
    type V = Seq<ValueModel>;

    open spec fn view(&self) -> Seq<ValueModel> {
        values_model(self.elems@)
    }
}

impl RepeatedFieldRef {
    /// The declared element type, in the model.
    pub open spec fn etype(&self) -> TypeModel {
        self.elem_type@
    }

    /// Every element conforms to the declared element type.
    pub open spec fn wf(&self) -> bool {
        values_conform(self@, self.etype())
    }

    pub fn element_type(&self) -> (r: RuntimeValueType)
        ensures
            r@ == self.etype(),
    {
        self.elem_type.deep_clone()
    }

    pub fn len(&self) -> (r: usize)
        ensures
            r == self@.len(),
    {
        proof {
            lemma_values_model(self.elems@);
        }
        self.elems.len()
    }

    pub fn is_empty(&self) -> (r: bool)
        ensures
            r == (self@.len() == 0),
    {
        self.len() == 0
    }

    /// The element at one index of the insertion order.
    pub fn get(&self, index: usize) -> (r: ReflectValueBox)
        requires
            index < self@.len(),
        ensures
            r@ == self@[index as int],
    {
        proof {
            lemma_values_model(self.elems@);
        }
        self.elems[index].deep_clone()
    }

    /// Whether this view holds exactly the given sequence of values, element
    /// by element; equality of the view and a sequence is symmetric.
    pub fn eq_values(&self, other: &Vec<ReflectValueBox>) -> (r: bool)
        ensures
            r == (self@ == values_model(other@)),
    {
        values_eq(&self.elems, other)
    }
}

impl RepeatedFieldMut {
    /// The declared element type, in the model.
    pub open spec fn etype(&self) -> TypeModel {
        self.elem_type@
    }

    /// Every element conforms to the declared element type.
    pub open spec fn wf(&self) -> bool {
        values_conform(self@, self.etype())
    }

    pub fn element_type(&self) -> (r: RuntimeValueType)
        ensures
            r@ == self.etype(),
    {
        self.elem_type.deep_clone()
    }

    pub fn len(&self) -> (r: usize)
        ensures
            r == self@.len(),
    {
        proof {
            lemma_values_model(self.elems@);
        }
        self.elems.len()
    }

    pub fn is_empty(&self) -> (r: bool)
        ensures
            r == (self@.len() == 0),
    {
        self.len() == 0
    }

    /// The element at one index of the insertion order.
    pub fn get(&self, index: usize) -> (r: ReflectValueBox)
        requires
            index < self@.len(),
        ensures
            r@ == self@[index as int],
    {
        proof {
            lemma_values_model(self.elems@);
        }
        self.elems[index].deep_clone()
    }

    /// Appends a value, preserving insertion order.  The value's tag must
    /// match the element type.
    pub fn push(&mut self, value: ReflectValueBox)
        requires
            old(self).wf(),
            value_conforms(value@, old(self).etype()),
        ensures
            final(self)@ == old(self)@.push(value@),
            final(self).etype() == old(self).etype(),
            final(self).wf(),
    {
        let ghost old_elems = self.elems@;
        let ghost v_model = value@;
        self.elems.push(value);
        proof {
            lemma_values_model_push(old_elems, value);
            lemma_values_conform(old(self)@, old(self).etype());
            lemma_values_conform(final(self)@, old(self).etype());
            assert forall|i: int|
                0 <= i < final(self)@.len() implies value_conforms(
                #[trigger] final(self)@[i],
                old(self).etype(),
            ) by {
                if i < old(self)@.len() {
                    assert(final(self)@[i] == old(self)@[i]);
                } else {
                    assert(final(self)@[i] == v_model);
                }
            }
        }
    }

    /// Whether this view holds exactly the given sequence of values, element
    /// by element; equality of the view and a sequence is symmetric.
    pub fn eq_values(&self, other: &Vec<ReflectValueBox>) -> (r: bool)
        ensures
            r == (self@ == values_model(other@)),
    {
        values_eq(&self.elems, other)
    }
}

impl FieldDescriptor {
    /// A read-only view over a repeated field's current elements.
    pub fn get_repeated(&self, m: &DynamicMessage) -> (r: RepeatedFieldRef)
        requires
            wf_message(m@),
            self.valid_for(m@.desc),
            self@.ftype is Repeated,
        ensures
            r@ == self.state_in(m@)->Repeated_0,
            r.etype() == self@.ftype->Repeated_0,
            r.wf(),
    {
        let idx = self.slot(&m.descriptor);
        proof {
            lemma_states_model(m.fields@);
            lemma_conforms_states(m@.fields, m@.desc.fields);
        }
        let st = m.fields[idx].deep_clone();
        let elem_type = self.singular_runtime_type();
        match st {
            FieldState::Repeated(elems) => RepeatedFieldRef { elem_type, elems },
            _ => unreached(),
        }
    }

    /// Takes the elements of a repeated field out for mutation, leaving the
    /// field empty; `put_repeated` stores them back.  While the view is
    /// held, it is the only owner of the elements.
    pub fn take_repeated(&self, m: &mut DynamicMessage) -> (r: RepeatedFieldMut)
        requires
            wf_message(old(m)@),
            self.valid_for(old(m)@.desc),
            self@.ftype is Repeated,
        ensures
            r@ == self.state_in(old(m)@)->Repeated_0,
            r.etype() == self@.ftype->Repeated_0,
            r.wf(),
            final(m)@ == with_state(
                old(m)@,
                self.slot_in(old(m)@),
                FieldStateModel::Repeated(Seq::empty()),
            ),
            wf_message(final(m)@),
    {
        let idx = self.slot(&m.descriptor);
        proof {
            lemma_states_model(m.fields@);
            lemma_conforms_states(old(m)@.fields, old(m)@.desc.fields);
        }
        let st = m.fields[idx].deep_clone();
        let elem_type = self.singular_runtime_type();
        let ghost old_states = m.fields@;
        let empty_state = FieldState::Repeated(Vec::new());
        let ghost empty_state_g = empty_state;
        m.fields[idx] = empty_state;
        proof {
            lemma_states_model_update(old_states, idx as int, empty_state_g);
            assert(state_model(empty_state_g) == FieldStateModel::Repeated(
                Seq::<ValueModel>::empty(),
            ));
            let newf = old(m)@.fields.update(
                idx as int,
                FieldStateModel::Repeated(Seq::empty()),
            );
            lemma_conforms_states(newf, old(m)@.desc.fields);
            assert forall|j: int|
                0 <= j < newf.len() implies state_matches(
                #[trigger] newf[j],
                old(m)@.desc.fields[j].ftype,
            ) by {
                if j != idx as int {
                    assert(newf[j] == old(m)@.fields[j]);
                }
            }
        }
        match st {
            FieldState::Repeated(elems) => RepeatedFieldMut { elem_type, elems },
            _ => unreached(),
        }
    }

    /// Stores a mutable view's elements back into the repeated field.
    pub fn put_repeated(&self, m: &mut DynamicMessage, r: RepeatedFieldMut)
        requires
            wf_message(old(m)@),
            self.valid_for(old(m)@.desc),
            self@.ftype is Repeated,
            r.etype() == self@.ftype->Repeated_0,
            r.wf(),
        ensures
            final(m)@ == with_state(
                old(m)@,
                self.slot_in(old(m)@),
                FieldStateModel::Repeated(r@),
            ),
            wf_message(final(m)@),
    {
        let idx = self.slot(&m.descriptor);
        proof {
            lemma_states_model(m.fields@);
            lemma_conforms_states(old(m)@.fields, old(m)@.desc.fields);
        }
        let ghost old_states = m.fields@;
        let ghost r_model = r@;
        let ghost new_state = FieldState::Repeated(r.elems);
        m.fields[idx] = FieldState::Repeated(r.elems);
        proof {
            lemma_states_model_update(old_states, idx as int, new_state);
            let newf = old(m)@.fields.update(idx as int, FieldStateModel::Repeated(r_model));
            lemma_conforms_states(newf, old(m)@.desc.fields);
            assert forall|j: int|
                0 <= j < newf.len() implies state_matches(
                #[trigger] newf[j],
                old(m)@.desc.fields[j].ftype,
            ) by {
                if j != idx as int {
                    assert(newf[j] == old(m)@.fields[j]);
                }
            }
        }
    }
}

} // verus!
