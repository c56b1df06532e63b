//! Generic views over a map field's backing associative storage.
//!
//! Only membership, length and per-key lookup are part of the contract; no
//! iteration order is promised.  As with repeated fields, mutation runs
//! through ownership transfer: `take_map` moves the entries out of the
//! message into a `MapFieldMut`, and `put_map` stores them back.

use vstd::prelude::*;

use crate::model::{
    entries_conform, lemma_conforms_states, lemma_entries_conform, lemma_map_view_get,
    lemma_map_view_membership, lemma_map_view_push, lemma_map_view_update,
    lemma_unique_keys_push, lemma_unique_keys_update, map_view, state_matches, unique_keys,
    value_conforms, wf_message, with_state, FieldStateModel, TypeModel, ValueModel,
};
use crate::message::lemma_states_model_update;
use crate::types::{
    entries_model, entry_model, lemma_entries_model, lemma_states_model, state_model,
    DynamicMessage, FieldDescriptor, FieldState, ReflectValueBox, RuntimeFieldType,
    RuntimeValueType,
};

verus! {

broadcast use vstd::seq::group_seq_axioms, vstd::std_specs::vec::group_vec_axioms;

/// Appending one entry appends exactly its model.
pub proof fn lemma_entries_model_push(
    es: Seq<(ReflectValueBox, ReflectValueBox)>,
    e: (ReflectValueBox, ReflectValueBox),
)
    ensures
        entries_model(es.push(e)) == entries_model(es).push(entry_model(e)),
{
    assert(es.push(e).drop_last() =~= es);
    assert(es.push(e).last() == e);
}

/// Replacing one entry replaces exactly its model.
pub proof fn lemma_entries_model_update(
    es: Seq<(ReflectValueBox, ReflectValueBox)>,
    i: int,
    e: (ReflectValueBox, ReflectValueBox),
)
    requires
        0 <= i < es.len(),
    ensures
        entries_model(es.update(i, e)) == entries_model(es).update(i, entry_model(e)),
{
    lemma_entries_model(es.update(i, e));
    lemma_entries_model(es);
    assert forall|j: int|
        0 <= j < es.len() implies entries_model(es.update(i, e))[j] == entries_model(es).update(
        i,
        entry_model(e),
    )[j] by {
        if j == i {
            assert(es.update(i, e)[j] == e);
        } else {
            assert(es.update(i, e)[j] == es[j]);
        }
    }
    assert(entries_model(es.update(i, e)) =~= entries_model(es).update(i, entry_model(e)));
}

/// A read-only view over a map field: declared key and value types and a
/// snapshot of the entries.
pub struct MapFieldRef {
    pub key_type_decl: RuntimeValueType,
    pub value_type_decl: RuntimeValueType,
    pub entries: Vec<(ReflectValueBox, ReflectValueBox)>,
}

/// A mutable view over a map field, held by value while the message's slot
/// stands empty.
pub struct MapFieldMut {
    pub key_type_decl: RuntimeValueType,
    pub value_type_decl: RuntimeValueType,
    pub entries: Vec<(ReflectValueBox, ReflectValueBox)>,
}

impl View for MapFieldRef {
    type V = Seq<(ValueModel, ValueModel)>;

    open spec fn view(&self) -> Seq<(ValueModel, ValueModel)> {
        entries_model(self.entries@)
    }
}

impl View for MapFieldMut {
    type V = Seq<(ValueModel, ValueModel)>;

    open spec fn view(&self) -> Seq<(ValueModel, ValueModel)> {
        entries_model(self.entries@)
    }
}

impl MapFieldRef {
    pub open spec fn ktype(&self) -> TypeModel {
        self.key_type_decl@
    }

    pub open spec fn vtype(&self) -> TypeModel {
        self.value_type_decl@
    }

    /// Keys are unique and every entry conforms to the declared types.
    pub open spec fn wf(&self) -> bool {
        unique_keys(self@) && entries_conform(self@, self.ktype(), self.vtype())
    }

    pub fn key_type(&self) -> (r: RuntimeValueType)
        ensures
            r@ == self.ktype(),
    {
        self.key_type_decl.deep_clone()
    }

    pub fn value_type(&self) -> (r: RuntimeValueType)
        ensures
            r@ == self.vtype(),
    {
        self.value_type_decl.deep_clone()
    }

    pub fn len(&self) -> (r: usize)
        ensures
            r == self@.len(),
    {
        proof {
            lemma_entries_model(self.entries@);
        }
        self.entries.len()
    }

    pub fn is_empty(&self) -> (r: bool)
        ensures
            r == (self@.len() == 0),
    {
        self.len() == 0
    }

    /// Looks a key up: the stored value for that key, or nothing when the
    /// key is absent — absence is a normal outcome, not an error.
    #[verifier::loop_isolation(false)]
    pub fn get(&self, key: &ReflectValueBox) -> (r: Option<ReflectValueBox>)
        requires
            self.wf(),
        ensures
            match r {
                Some(v) => map_view(self@).contains_key(key@) && v@ == map_view(self@)[key@],
                None => !map_view(self@).contains_key(key@),
            },
    {
        map_entries_get(&self.entries, key)
    }
}

/// Linear lookup over the entries, exact against the map view.
#[verifier::loop_isolation(false)]
fn map_entries_get(
    entries: &Vec<(ReflectValueBox, ReflectValueBox)>,
    key: &ReflectValueBox,
) -> (r: Option<ReflectValueBox>)
    requires
        unique_keys(entries_model(entries@)),
    ensures
        match r {
            Some(v) => map_view(entries_model(entries@)).contains_key(key@) && v@ == map_view(
                entries_model(entries@),
            )[key@],
            None => !map_view(entries_model(entries@)).contains_key(key@),
        },
{
    broadcast use lemma_entries_model;

    let ghost es = entries_model(entries@);
    let mut i: usize = 0;
    while i < entries.len()
        invariant
            i <= entries.len(),
            forall|j: int| 0 <= j < i ==> (#[trigger] es[j]).0 != key@,
        decreases entries.len() - i,
    {
        if entries[i].0.value_eq(key) {
            let v = entries[i].1.deep_clone();
            proof {
                assert(es[i as int] == entry_model(entries@[i as int]));
                assert(es[i as int].0 == key@);
                lemma_map_view_membership(es, key@);
                lemma_map_view_get(es, i as int);
            }
            return Some(v);
        }
        proof {
            assert(es[i as int] == entry_model(entries@[i as int]));
        }
        i += 1;
    }
    proof {
        lemma_map_view_membership(es, key@);
    }
    None
}

impl MapFieldMut {
    pub open spec fn ktype(&self) -> TypeModel {
        self.key_type_decl@
    }

    pub open spec fn vtype(&self) -> TypeModel {
        self.value_type_decl@
    }

    /// Keys are unique and every entry conforms to the declared types.
    pub open spec fn wf(&self) -> bool {
        unique_keys(self@) && entries_conform(self@, self.ktype(), self.vtype())
    }

    pub fn key_type(&self) -> (r: RuntimeValueType)
        ensures
            r@ == self.ktype(),
    {
        self.key_type_decl.deep_clone()
    }

    pub fn value_type(&self) -> (r: RuntimeValueType)
        ensures
            r@ == self.vtype(),
    {
        self.value_type_decl.deep_clone()
    }

    pub fn len(&self) -> (r: usize)
        ensures
            r == self@.len(),
    {
        proof {
            lemma_entries_model(self.entries@);
        }
        self.entries.len()
    }

    pub fn is_empty(&self) -> (r: bool)
        ensures
            r == (self@.len() == 0),
    {
        self.len() == 0
    }

    /// Looks a key up: the stored value for that key, or nothing when the
    /// key is absent.
    pub fn get(&self, key: &ReflectValueBox) -> (r: Option<ReflectValueBox>)
        requires
            self.wf(),
        ensures
            match r {
                Some(v) => map_view(self@).contains_key(key@) && v@ == map_view(self@)[key@],
                None => !map_view(self@).contains_key(key@),
            },
    {
        map_entries_get(&self.entries, key)
    }

    /// Inserts a key/value pair; an existing entry for that key is
    /// overwritten.  Key and value tags must match the declared types.
    #[verifier::loop_isolation(false)]
    pub fn insert(&mut self, key: ReflectValueBox, value: ReflectValueBox)
        requires
            old(self).wf(),
            value_conforms(key@, old(self).ktype()),
            value_conforms(value@, old(self).vtype()),
        ensures
            map_view(final(self)@) == map_view(old(self)@).insert(key@, value@),
            final(self)@.len() == old(self)@.len() + (if map_view(old(self)@).contains_key(key@) {
                0int
            } else {
                1int
            }),
            final(self).ktype() == old(self).ktype(),
            final(self).vtype() == old(self).vtype(),
            final(self).wf(),
            !map_view(old(self)@).contains_key(key@) ==> final(self)@ == old(self)@.push(
                (key@, value@),
            ),
    {
        broadcast use lemma_entries_model;

        let ghost es = entries_model(self.entries@);
        let ghost k_model = key@;
        let ghost v_model = value@;
        let mut i: usize = 0;
        while i < self.entries.len()
            invariant
                *self == *old(self),
                i <= self.entries.len(),
                forall|j: int| 0 <= j < i ==> (#[trigger] es[j]).0 != k_model,
            decreases self.entries.len() - i,
        {
            if self.entries[i].0.value_eq(&key) {
                proof {
                    assert(es[i as int] == entry_model(self.entries@[i as int]));
                    assert(es[i as int].0 == k_model);
                }
                let kc = self.entries[i].0.deep_clone();
                let ghost old_entries = self.entries@;
                let ghost new_entry = (kc, value);
                self.entries[i] = (kc, value);
                proof {
                    lemma_entries_model_update(old_entries, i as int, new_entry);
                    assert(entry_model(new_entry) == (k_model, v_model));
                    assert(entries_model(self.entries@) =~= es.update(
                        i as int,
                        (es[i as int].0, v_model),
                    ));
                    lemma_map_view_update(es, i as int, v_model);
                    lemma_unique_keys_update(es, i as int, v_model);
                    lemma_map_view_membership(es, k_model);
                    lemma_entries_conform(es, old(self).ktype(), old(self).vtype());
                    lemma_entries_conform(
                        entries_model(self.entries@),
                        old(self).ktype(),
                        old(self).vtype(),
                    );
                    assert forall|j: int|
                        0 <= j < es.len() implies value_conforms(
                        (#[trigger] entries_model(self.entries@)[j]).0,
                        old(self).ktype(),
                    ) && value_conforms(
                        entries_model(self.entries@)[j].1,
                        old(self).vtype(),
                    ) by {
                        if j != i as int {
                            assert(entries_model(self.entries@)[j] == es[j]);
                        }
                    }
                }
                return ;
            }
            proof {
                assert(es[i as int] == entry_model(self.entries@[i as int]));
            }
            i += 1;
        }
        let ghost old_entries = self.entries@;
        let ghost new_entry = (key, value);
        self.entries.push((key, value));
        proof {
            lemma_entries_model_push(old_entries, new_entry);
            assert(entry_model(new_entry) == (k_model, v_model));
            lemma_map_view_push(es, k_model, v_model);
            lemma_unique_keys_push(es, k_model, v_model);
            lemma_map_view_membership(es, k_model);
            lemma_entries_conform(es, old(self).ktype(), old(self).vtype());
            lemma_entries_conform(
                entries_model(self.entries@),
                old(self).ktype(),
                old(self).vtype(),
            );
            assert forall|j: int|
                0 <= j < es.len() + 1 implies value_conforms(
                (#[trigger] entries_model(self.entries@)[j]).0,
                old(self).ktype(),
            ) && value_conforms(entries_model(self.entries@)[j].1, old(self).vtype()) by {
                if j < es.len() {
                    assert(entries_model(self.entries@)[j] == es[j]);
                } else {
                    assert(entries_model(self.entries@)[j] == (k_model, v_model));
                }
            }
        }
    }
}

impl FieldDescriptor {
    /// A read-only view over a map field's current entries.
    pub fn get_map(&self, m: &DynamicMessage) -> (r: MapFieldRef)
        requires
            wf_message(m@),
            self.valid_for(m@.desc),
            self@.ftype is Mapping,
        ensures
            r@ == self.state_in(m@)->Mapping_0,
            r.ktype() == self@.ftype->Mapping_0,
            r.vtype() == self@.ftype->Mapping_1,
            r.wf(),
    {
        let idx = self.slot(&m.descriptor);
        proof {
            lemma_states_model(m.fields@);
            lemma_conforms_states(m@.fields, m@.desc.fields);
        }
        let st = m.fields[idx].deep_clone();
        let (key_type_decl, value_type_decl) = match &self.ftype {
            RuntimeFieldType::Mapping(kt, vt) => (kt.deep_clone(), vt.deep_clone()),
            _ => unreached(),
        };
        match st {
            FieldState::Mapping(entries) => MapFieldRef { key_type_decl, value_type_decl, entries },
            _ => unreached(),
        }
    }

    /// Takes the entries of a map field out for mutation, leaving the field
    /// empty; `put_map` stores them back.
    pub fn take_map(&self, m: &mut DynamicMessage) -> (r: MapFieldMut)
        requires
            wf_message(old(m)@),
            self.valid_for(old(m)@.desc),
            self@.ftype is Mapping,
        ensures
            r@ == self.state_in(old(m)@)->Mapping_0,
            r.ktype() == self@.ftype->Mapping_0,
            r.vtype() == self@.ftype->Mapping_1,
            r.wf(),
            final(m)@ == with_state(
                old(m)@,
                self.slot_in(old(m)@),
                FieldStateModel::Mapping(Seq::empty()),
            ),
            wf_message(final(m)@),
    {
        let idx = self.slot(&m.descriptor);
        proof {
            lemma_states_model(m.fields@);
            lemma_conforms_states(old(m)@.fields, old(m)@.desc.fields);
        }
        let st = m.fields[idx].deep_clone();
        let (key_type_decl, value_type_decl) = match &self.ftype {
            RuntimeFieldType::Mapping(kt, vt) => (kt.deep_clone(), vt.deep_clone()),
            _ => unreached(),
        };
        let ghost old_states = m.fields@;
        let empty_state = FieldState::Mapping(Vec::new());
        let ghost empty_state_g = empty_state;
        m.fields[idx] = empty_state;
        proof {
            lemma_states_model_update(old_states, idx as int, empty_state_g);
            assert(state_model(empty_state_g) == FieldStateModel::Mapping(
                Seq::<(ValueModel, ValueModel)>::empty(),
            ));
            let newf = old(m)@.fields.update(
                idx as int,
                FieldStateModel::Mapping(Seq::empty()),
            );
            lemma_conforms_states(newf, old(m)@.desc.fields);
            assert forall|j: int|
                0 <= j < newf.len() implies state_matches(
                #[trigger] newf[j],
                old(m)@.desc.fields[j].ftype,
            ) by {
                if j != idx as int {
                    assert(newf[j] == old(m)@.fields[j]);
                }
            }
        }
        match st {
            FieldState::Mapping(entries) => MapFieldMut { key_type_decl, value_type_decl, entries },
            _ => unreached(),
        }
    }

    /// Stores a mutable view's entries back into the map field.
    pub fn put_map(&self, m: &mut DynamicMessage, r: MapFieldMut)
        requires
            wf_message(old(m)@),
            self.valid_for(old(m)@.desc),
            self@.ftype is Mapping,
            r.ktype() == self@.ftype->Mapping_0,
            r.vtype() == self@.ftype->Mapping_1,
            r.wf(),
        ensures
            final(m)@ == with_state(
                old(m)@,
                self.slot_in(old(m)@),
                FieldStateModel::Mapping(r@),
            ),
            wf_message(final(m)@),
    {
        let idx = self.slot(&m.descriptor);
        proof {
            lemma_states_model(m.fields@);
            lemma_conforms_states(old(m)@.fields, old(m)@.desc.fields);
        }
        let ghost old_states = m.fields@;
        let ghost r_model = r@;
        let ghost new_state = FieldState::Mapping(r.entries);
        m.fields[idx] = FieldState::Mapping(r.entries);
        proof {
            lemma_states_model_update(old_states, idx as int, new_state);
            let newf = old(m)@.fields.update(idx as int, FieldStateModel::Mapping(r_model));
            lemma_conforms_states(newf, old(m)@.desc.fields);
            assert forall|j: int|
                0 <= j < newf.len() implies state_matches(
                #[trigger] newf[j],
                old(m)@.desc.fields[j].ftype,
            ) by {
                if j != idx as int {
                    assert(newf[j] == old(m)@.fields[j]);
                }
            }
        }
    }
}

} // verus!
