//! Message instances and the singular-field operations of `FieldDescriptor`.
//!
//! Every accessor takes the message instance by reference and dispatches
//! through the field's declared kind; a kind or type mismatch is a caller
//! contract violation, excluded by `requires`, so no verified caller can
//! reach one.

use vstd::prelude::*;

use crate::descriptor::slot_of;
use crate::model::{
    default_of, default_state, fresh_message, fresh_states, lemma_conforms_states,
    lemma_default_conforms, lemma_fresh_message_conforms, lemma_wf_fields, singular_or_default,
    state_len, state_matches, state_present, value_conforms, wf_message, with_state,
    FieldStateModel, FieldTypeModel, MessageModel, TypeModel, ValueModel,
};
use crate::types::{
    field_model, lemma_entries_model, lemma_fields_model, lemma_states_model,
    lemma_values_model, state_model, states_model, DynamicMessage, FieldDescriptor, FieldState,
    MessageDescriptor, ReflectValueBox, RuntimeFieldType, RuntimeValueType,
};

verus! {

broadcast use vstd::seq::group_seq_axioms, vstd::std_specs::vec::group_vec_axioms;

/// Replacing one element replaces exactly one slot of the sequence model.
pub proof fn lemma_states_model_update(ss: Seq<FieldState>, i: int, s: FieldState)
    requires
        0 <= i < ss.len(),
    ensures
        states_model(ss.update(i, s)) == states_model(ss).update(i, state_model(s)),
{
    lemma_states_model(ss.update(i, s));
    lemma_states_model(ss);
    assert forall|j: int|
        0 <= j < ss.len() implies states_model(ss.update(i, s))[j] == states_model(ss).update(
        i,
        state_model(s),
    )[j] by {
        if j == i {
            assert(ss.update(i, s)[j] == s);
        } else {
            assert(ss.update(i, s)[j] == ss[j]);
        }
    }
    assert(states_model(ss.update(i, s)) =~= states_model(ss).update(i, state_model(s)));
}

impl FieldDescriptor {
    /// The slot this field occupies in the message's schema.
    pub open spec fn slot_in(&self, m: MessageModel) -> int {
        slot_of(m.desc, self@.name)
    }

    /// The stored state of this field on the given message.
    pub open spec fn state_in(&self, m: MessageModel) -> FieldStateModel {
        m.fields[self.slot_in(m)]
    }
}

impl DynamicMessage {
    /// A freshly constructed instance of the schema: every singular field
    /// absent, every repeated and map field empty.
    #[verifier::loop_isolation(false)]
    pub fn new(descriptor: MessageDescriptor) -> (r: DynamicMessage)
        ensures
            r@ == fresh_message(descriptor@),
    {
        let mut fields: Vec<FieldState> = Vec::new();
        let mut i: usize = 0;
        while i < descriptor.fields.len()
            invariant
                i <= descriptor.fields.len(),
                fields@.len() == i as int,
                forall|j: int|
                    0 <= j < i ==> state_model(#[trigger] fields@[j]) == default_state(
                        descriptor@.fields[j].ftype,
                    ),
            decreases descriptor.fields.len() - i,
        {
            proof {
                lemma_fields_model(descriptor.fields@);
                assert(descriptor@.fields[i as int] == field_model(descriptor.fields@[i as int]));
            }
            let s = match &descriptor.fields[i].ftype {
                RuntimeFieldType::Singular(_) => FieldState::Unset,
                RuntimeFieldType::Repeated(_) => FieldState::Repeated(Vec::new()),
                RuntimeFieldType::Mapping(_, _) => FieldState::Mapping(Vec::new()),
            };
            fields.push(s);
            i += 1;
        }
        proof {
            lemma_fields_model(descriptor.fields@);
            lemma_states_model(fields@);
            assert forall|j: int|
                0 <= j < descriptor@.fields.len() implies states_model(fields@)[j] == fresh_states(
                descriptor@.fields,
            )[j] by {
                assert(state_model(fields@[j]) == default_state(descriptor@.fields[j].ftype));
            }
            assert(states_model(fields@) =~= fresh_states(descriptor@.fields));
        }
        DynamicMessage { descriptor, fields }
    }

    /// The schema this instance belongs to.
    pub fn descriptor(&self) -> (r: &MessageDescriptor)
        ensures
            r@ == self@.desc,
    {
        &self.descriptor
    }
}

impl FieldDescriptor {
    /// Field presence: for a singular field, whether an explicit value has
    /// been set (regardless of that value equaling the default); a repeated
    /// or map field counts as present when non-empty.
    pub fn has_field(&self, m: &DynamicMessage) -> (r: bool)
        requires
            wf_message(m@),
            self.valid_for(m@.desc),
        ensures
            r == state_present(self.state_in(m@)),
    {
        broadcast use lemma_values_model, lemma_entries_model;

        let idx = self.slot(&m.descriptor);
        proof {
            lemma_states_model(m.fields@);
            lemma_conforms_states(m@.fields, m@.desc.fields);
        }
        match &m.fields[idx] {
            FieldState::Unset => false,
            FieldState::Singular(_) => true,
            FieldState::Repeated(vs) => vs.len() > 0,
            FieldState::Mapping(es) => es.len() > 0,
        }
    }

    /// Element count: for repeated and map fields the number of elements or
    /// entries; 0 for an absent singular field, 1 for a present one.
    pub fn len_field(&self, m: &DynamicMessage) -> (r: usize)
        requires
            wf_message(m@),
            self.valid_for(m@.desc),
        ensures
            r == state_len(self.state_in(m@)),
    {
        broadcast use lemma_values_model, lemma_entries_model;

        let idx = self.slot(&m.descriptor);
        proof {
            lemma_states_model(m.fields@);
            lemma_conforms_states(m@.fields, m@.desc.fields);
        }
        match &m.fields[idx] {
            FieldState::Unset => 0,
            FieldState::Singular(_) => 1,
            FieldState::Repeated(vs) => {
                proof {
                    assert(m.fields@[idx as int] == FieldState::Repeated(*vs));
                    lemma_values_model(vs@);
                }
                vs.len()
            },
            FieldState::Mapping(es) => {
                proof {
                    assert(m.fields@[idx as int] == FieldState::Mapping(*es));
                    lemma_entries_model(es@);
                }
                es.len()
            },
        }
    }

    /// The set value of a singular field, or the declared type's
    /// zero/default value when the field is absent.  Never fails on a
    /// matching schema.
    pub fn get_singular_field_or_default(&self, m: &DynamicMessage) -> (r: ReflectValueBox)
        requires
            wf_message(m@),
            self.valid_for(m@.desc),
            self@.ftype is Singular,
        ensures
            r@ == singular_or_default(self.state_in(m@), self@.ftype->Singular_0),
            value_conforms(r@, self@.ftype->Singular_0),
    {
        let idx = self.slot(&m.descriptor);
        proof {
            lemma_states_model(m.fields@);
            lemma_conforms_states(m@.fields, m@.desc.fields);
            lemma_wf_fields(m@.desc.fields);
            lemma_default_conforms(self@.ftype->Singular_0);
        }
        match &m.fields[idx] {
            FieldState::Singular(v) => v.deep_clone(),
            FieldState::Unset => {
                match &self.ftype {
                    RuntimeFieldType::Singular(t) => default_value(t),
                    _ => unreached(),
                }
            },
            _ => unreached(),
        }
    }

    /// The value of a singular boolean field, or `false` when absent.
    pub fn get_bool(&self, m: &DynamicMessage) -> (r: bool)
        requires
            wf_message(m@),
            self.valid_for(m@.desc),
            self@.ftype == FieldTypeModel::Singular(TypeModel::Bool),
        ensures
            ValueModel::Bool(r) == singular_or_default(self.state_in(m@), TypeModel::Bool),
    {
        let idx = self.slot(&m.descriptor);
        proof {
            lemma_states_model(m.fields@);
            lemma_conforms_states(m@.fields, m@.desc.fields);
        }
        match &m.fields[idx] {
            FieldState::Unset => false,
            FieldState::Singular(ReflectValueBox::Bool(b)) => *b,
            _ => unreached(),
        }
    }

    /// The value of a singular 32-bit signed integer field, or `0` when
    /// absent.
    pub fn get_i32(&self, m: &DynamicMessage) -> (r: i32)
        requires
            wf_message(m@),
            self.valid_for(m@.desc),
            self@.ftype == FieldTypeModel::Singular(TypeModel::I32),
        ensures
            ValueModel::I32(r) == singular_or_default(self.state_in(m@), TypeModel::I32),
    {
        let idx = self.slot(&m.descriptor);
        proof {
            lemma_states_model(m.fields@);
            lemma_conforms_states(m@.fields, m@.desc.fields);
        }
        match &m.fields[idx] {
            FieldState::Unset => 0,
            FieldState::Singular(ReflectValueBox::I32(x)) => *x,
            _ => unreached(),
        }
    }

    /// The value of a singular 64-bit signed integer field, or `0` when
    /// absent.
    pub fn get_i64(&self, m: &DynamicMessage) -> (r: i64)
        requires
            wf_message(m@),
            self.valid_for(m@.desc),
            self@.ftype == FieldTypeModel::Singular(TypeModel::I64),
        ensures
            ValueModel::I64(r) == singular_or_default(self.state_in(m@), TypeModel::I64),
    {
        let idx = self.slot(&m.descriptor);
        proof {
            lemma_states_model(m.fields@);
            lemma_conforms_states(m@.fields, m@.desc.fields);
        }
        match &m.fields[idx] {
            FieldState::Unset => 0,
            FieldState::Singular(ReflectValueBox::I64(x)) => *x,
            _ => unreached(),
        }
    }

    /// The value of a singular 32-bit unsigned integer field, or `0` when
    /// absent.
    pub fn get_u32(&self, m: &DynamicMessage) -> (r: u32)
        requires
            wf_message(m@),
            self.valid_for(m@.desc),
            self@.ftype == FieldTypeModel::Singular(TypeModel::U32),
        ensures
            ValueModel::U32(r) == singular_or_default(self.state_in(m@), TypeModel::U32),
    {
        let idx = self.slot(&m.descriptor);
        proof {
            lemma_states_model(m.fields@);
            lemma_conforms_states(m@.fields, m@.desc.fields);
        }
        match &m.fields[idx] {
            FieldState::Unset => 0,
            FieldState::Singular(ReflectValueBox::U32(x)) => *x,
            _ => unreached(),
        }
    }

    /// The value of a singular 64-bit unsigned integer field, or `0` when
    /// absent.
    pub fn get_u64(&self, m: &DynamicMessage) -> (r: u64)
        requires
            wf_message(m@),
            self.valid_for(m@.desc),
            self@.ftype == FieldTypeModel::Singular(TypeModel::U64),
        ensures
            ValueModel::U64(r) == singular_or_default(self.state_in(m@), TypeModel::U64),
    {
        let idx = self.slot(&m.descriptor);
        proof {
            lemma_states_model(m.fields@);
            lemma_conforms_states(m@.fields, m@.desc.fields);
        }
        match &m.fields[idx] {
            FieldState::Unset => 0,
            FieldState::Singular(ReflectValueBox::U64(x)) => *x,
            _ => unreached(),
        }
    }

    /// The sub-message stored in a singular message-typed field, or a fresh,
    /// unpopulated instance of the declared schema when the field is absent.
    pub fn get_message(&self, m: &DynamicMessage) -> (r: DynamicMessage)
        requires
            wf_message(m@),
            self.valid_for(m@.desc),
            self@.ftype matches FieldTypeModel::Singular(TypeModel::Message(_)),
        ensures
            ValueModel::Message(r@) == singular_or_default(
                self.state_in(m@),
                self@.ftype->Singular_0,
            ),
            wf_message(r@),
    {
        let idx = self.slot(&m.descriptor);
        proof {
            lemma_states_model(m.fields@);
            lemma_conforms_states(m@.fields, m@.desc.fields);
            lemma_wf_fields(m@.desc.fields);
            lemma_fresh_message_conforms(self@.ftype->Singular_0->Message_0);
        }
        match &m.fields[idx] {
            FieldState::Singular(ReflectValueBox::Message(b)) => b.deep_clone(),
            FieldState::Unset => {
                match &self.ftype {
                    RuntimeFieldType::Singular(RuntimeValueType::Message(d)) => {
                        DynamicMessage::new(d.deep_clone())
                    },
                    _ => unreached(),
                }
            },
            _ => unreached(),
        }
    }

    /// Takes the sub-message of a singular message-typed field out for
    /// mutation: the stored sub-message when present, else a fresh instance
    /// of the declared schema.  The slot is left absent; storing the taken
    /// message back with `set_singular_field` marks the field present.
    pub fn take_message(&self, m: &mut DynamicMessage) -> (r: DynamicMessage)
        requires
            wf_message(old(m)@),
            self.valid_for(old(m)@.desc),
            self@.ftype matches FieldTypeModel::Singular(TypeModel::Message(_)),
        ensures
            ValueModel::Message(r@) == singular_or_default(
                self.state_in(old(m)@),
                self@.ftype->Singular_0,
            ),
            wf_message(r@),
            final(m)@ == with_state(old(m)@, self.slot_in(old(m)@), FieldStateModel::Unset),
            wf_message(final(m)@),
    {
        let r = self.get_message(m);
        let idx = self.slot(&m.descriptor);
        let ghost old_states = m.fields@;
        proof {
            lemma_states_model(m.fields@);
            lemma_conforms_states(old(m)@.fields, old(m)@.desc.fields);
        }
        m.fields[idx] = FieldState::Unset;
        proof {
            lemma_states_model_update(old_states, idx as int, FieldState::Unset);
            let newf = old(m)@.fields.update(idx as int, FieldStateModel::Unset);
            lemma_conforms_states(newf, old(m)@.desc.fields);
            assert forall|j: int|
                0 <= j < newf.len() implies state_matches(
                #[trigger] newf[j],
                old(m)@.desc.fields[j].ftype,
            ) by {
                if j != idx as int {
                    assert(newf[j] == old(m)@.fields[j]);
                }
            }
        }
        r
    }

    /// Stores a value into a singular field and marks the field present.
    /// The value's tag must match the field's declared type.
    pub fn set_singular_field(&self, m: &mut DynamicMessage, value: ReflectValueBox)
        requires
            wf_message(old(m)@),
            self.valid_for(old(m)@.desc),
            self@.ftype is Singular,
            value_conforms(value@, self@.ftype->Singular_0),
        ensures
            final(m)@ == with_state(
                old(m)@,
                self.slot_in(old(m)@),
                FieldStateModel::Singular(value@),
            ),
            wf_message(final(m)@),
            state_present(self.state_in(final(m)@)),
    {
        let idx = self.slot(&m.descriptor);
        let ghost old_states = m.fields@;
        proof {
            lemma_states_model(m.fields@);
            lemma_conforms_states(old(m)@.fields, old(m)@.desc.fields);
        }
        let ghost v_model = value@;
        m.fields[idx] = FieldState::Singular(value);
        proof {
            lemma_states_model_update(old_states, idx as int, FieldState::Singular(value));
            let newf = old(m)@.fields.update(idx as int, FieldStateModel::Singular(v_model));
            lemma_conforms_states(newf, old(m)@.desc.fields);
            assert forall|j: int|
                0 <= j < newf.len() implies state_matches(
                #[trigger] newf[j],
                old(m)@.desc.fields[j].ftype,
            ) by {
                if j != idx as int {
                    assert(newf[j] == old(m)@.fields[j]);
                }
            }
            lemma_slot_stable(old(m)@, final(m)@, self@.name);
        }
    }
}

/// The zero/default value of a declared type: `false`, `0`, the empty
/// string or byte sequence, the enum's default number, or a fresh,
/// unpopulated message of the declared schema.
pub fn default_value(t: &RuntimeValueType) -> (r: ReflectValueBox)
    ensures
        r@ == default_of(t@),
{
    match t {
        RuntimeValueType::Bool => ReflectValueBox::Bool(false),
        RuntimeValueType::I32 => ReflectValueBox::I32(0),
        RuntimeValueType::I64 => ReflectValueBox::I64(0),
        RuntimeValueType::U32 => ReflectValueBox::U32(0),
        RuntimeValueType::U64 => ReflectValueBox::U64(0),
        RuntimeValueType::F32 => ReflectValueBox::F32(0),
        RuntimeValueType::F64 => ReflectValueBox::F64(0),
        RuntimeValueType::Str => ReflectValueBox::Str(String::new()),
        RuntimeValueType::Bytes => ReflectValueBox::Bytes(Vec::new()),
        RuntimeValueType::Enum(e) => ReflectValueBox::Enum(e.deep_clone(), e.default_number),
        RuntimeValueType::Message(d) => ReflectValueBox::Message(
            Box::new(DynamicMessage::new(d.deep_clone())),
        ),
    }
}

/// Two messages of one schema give every field name the same slot.
pub proof fn lemma_slot_stable(a: MessageModel, b: MessageModel, name: Seq<char>)
    requires
        a.desc == b.desc,
    ensures
        slot_of(a.desc, name) == slot_of(b.desc, name),
{
}

} // verus!
