//! Generic per-kind routines that drive every accessor family of a field.
//!
//! `exercise_field` inspects `runtime_field_type()` once and routes the
//! field to the accessor family matching its kind; that these routines
//! verify shows that the dispatch never reaches a kind or type mismatch,
//! for every field of every well-formed schema.

use vstd::prelude::*;

use crate::model::{
    default_state, fresh_message, lemma_fresh_message_conforms, state_present, value_conforms,
    wf_message, with_state, FieldStateModel, FieldTypeModel, TypeModel, ValueModel,
};
use crate::descriptor::lemma_slot_of;
use crate::types::{
    DynamicMessage, FieldDescriptor, ReflectValueBox, RuntimeFieldType, RuntimeValueType,
};

verus! {

broadcast use vstd::seq::group_seq_axioms, vstd::std_specs::vec::group_vec_axioms;

/// A fixed, non-default sample value of each type, used to drive a field of
/// that type.
pub open spec fn sample_of(t: TypeModel) -> ValueModel {
    match t {
        TypeModel::Bool => ValueModel::Bool(true),
        TypeModel::I32 => ValueModel::I32(10),
        TypeModel::I64 => ValueModel::I64(10),
        TypeModel::U32 => ValueModel::U32(10),
        TypeModel::U64 => ValueModel::U64(10),
        TypeModel::F32 => ValueModel::F32(10),
        TypeModel::F64 => ValueModel::F64(10),
        TypeModel::Str => ValueModel::Str(seq!['a', 'b', 'c']),
        TypeModel::Bytes => ValueModel::Bytes(seq![1u8, 2u8, 3u8]),
        TypeModel::Enum(d) => ValueModel::Enum(d, d.default_number),
        TypeModel::Message(d) => ValueModel::Message(fresh_message(d)),
    }
}

/// The sample value conforms to its type.
pub proof fn lemma_sample_conforms(t: TypeModel)
    ensures
        value_conforms(sample_of(t), t),
{
    match t {
        TypeModel::Message(d) => {
            lemma_fresh_message_conforms(d);
        },
        _ => {},
    }
}

/// A sample value of the given type.
pub fn sample_value_for(t: &RuntimeValueType) -> (r: ReflectValueBox)
    ensures
        r@ == sample_of(t@),
        value_conforms(r@, t@),
{
    proof {
        lemma_sample_conforms(t@);
    }
    match t {
        RuntimeValueType::Bool => ReflectValueBox::Bool(true),
        RuntimeValueType::I32 => ReflectValueBox::I32(10),
        RuntimeValueType::I64 => ReflectValueBox::I64(10),
        RuntimeValueType::U32 => ReflectValueBox::U32(10),
        RuntimeValueType::U64 => ReflectValueBox::U64(10),
        RuntimeValueType::F32 => ReflectValueBox::F32(10),
        RuntimeValueType::F64 => ReflectValueBox::F64(10),
        RuntimeValueType::Str => {
            proof {
                reveal_strlit("abc");
            }
            let s: String = "abc".to_owned();
            proof {
                assert(s@ =~= seq!['a', 'b', 'c']);
            }
            ReflectValueBox::Str(s)
        },
        RuntimeValueType::Bytes => {
            let mut b: Vec<u8> = Vec::new();
            b.push(1);
            b.push(2);
            b.push(3);
            proof {
                assert(b@ =~= seq![1u8, 2u8, 3u8]);
            }
            ReflectValueBox::Bytes(b)
        },
        RuntimeValueType::Enum(e) => ReflectValueBox::Enum(e.deep_clone(), e.default_number),
        RuntimeValueType::Message(d) => ReflectValueBox::Message(
            Box::new(DynamicMessage::new(d.deep_clone())),
        ),
    }
}

/// The state a field slot holds after its kind's exercise routine ran on a
/// fresh slot.
pub open spec fn exercised_state(ft: FieldTypeModel) -> FieldStateModel {
    match ft {
        FieldTypeModel::Singular(t) => FieldStateModel::Singular(sample_of(t)),
        FieldTypeModel::Repeated(t) => FieldStateModel::Repeated(
            seq![sample_of(t), sample_of(t), sample_of(t)],
        ),
        FieldTypeModel::Mapping(kt, vt) => FieldStateModel::Mapping(
            seq![(sample_of(kt), sample_of(vt))],
        ),
    }
}

/// Drives a singular field: absent before, read of the default succeeds,
/// then a sample value is stored and the field becomes present.
pub fn exercise_singular_field(m: &mut DynamicMessage, field: &FieldDescriptor)
    requires
        wf_message(old(m)@),
        field.valid_for(old(m)@.desc),
        field@.ftype is Singular,
        field.state_in(old(m)@) == FieldStateModel::Unset,
    ensures
        final(m)@ == with_state(
            old(m)@,
            field.slot_in(old(m)@),
            exercised_state(field@.ftype),
        ),
        wf_message(final(m)@),
        state_present(field.state_in(final(m)@)),
    {
    let present = field.has_field(m);
    assert(!present);
    let _default_read = field.get_singular_field_or_default(m);
    let t = field.singular_runtime_type();
    let value = sample_value_for(&t);
    field.set_singular_field(m, value);
}

/// Drives a repeated field: empty before, three sample values appended
/// through the mutable view — each read back at its index — the view then
/// equal to the appended sequence, stored back, and the read view equal to
/// that sequence again.
#[verifier::loop_isolation(false)]
pub fn exercise_repeated_field(m: &mut DynamicMessage, field: &FieldDescriptor)
    requires
        wf_message(old(m)@),
        field.valid_for(old(m)@.desc),
        field@.ftype is Repeated,
        field.state_in(old(m)@) == FieldStateModel::Repeated(Seq::<ValueModel>::empty()),
    ensures
        final(m)@ == with_state(
            old(m)@,
            field.slot_in(old(m)@),
            exercised_state(field@.ftype),
        ),
        wf_message(final(m)@),
    {
    broadcast use crate::types::lemma_values_model;

    let len_before = field.len_field(m);
    assert(len_before == 0);
    let present = field.has_field(m);
    assert(!present);
    let ghost s = sample_of(field@.ftype->Repeated_0);
    let mut expected: Vec<ReflectValueBox> = Vec::new();
    let mut repeated = field.take_repeated(m);
    let ghost mid = m@;
    let mut i: usize = 0;
    while i < 3
        invariant
            i <= 3,
            repeated@.len() == i as int,
            forall|j: int| 0 <= j < i ==> repeated@[j] == s,
            repeated@ == crate::types::values_model(expected@),
            repeated.etype() == field@.ftype->Repeated_0,
            repeated.wf(),
        decreases 3 - i,
    {
        let t = repeated.element_type();
        let value = sample_value_for(&t);
        let copy = value.deep_clone();
        let ghost copy_g = copy;
        let ghost old_expected = expected@;
        expected.push(copy);
        repeated.push(value);
        proof {
            crate::repeated::lemma_values_model_push(old_expected, copy_g);
        }
        let fetched = repeated.get(repeated.len() - 1);
        let same = fetched.value_eq(&expected[i]);
        assert(same);
        i += 1;
    }
    let both = repeated.eq_values(&expected);
    assert(both);
    field.put_repeated(m, repeated);
    proof {
        assert(repeated@ =~= seq![s, s, s]);
        assert(final(m)@.fields =~= old(m)@.fields.update(
            field.slot_in(old(m)@),
            exercised_state(field@.ftype),
        ));
    }
    let view = field.get_repeated(m);
    let n = view.len();
    assert(n == 3);
    let again = view.eq_values(&expected);
    assert(again);
}

/// Drives a map field: both views empty before, lookup of a sample key
/// absent, one sample entry inserted, looked up again, and the length 1.
pub fn exercise_map_field(m: &mut DynamicMessage, field: &FieldDescriptor)
    requires
        wf_message(old(m)@),
        field.valid_for(old(m)@.desc),
        field@.ftype is Mapping,
        field.state_in(old(m)@) == FieldStateModel::Mapping(
            Seq::<(ValueModel, ValueModel)>::empty(),
        ),
    ensures
        final(m)@ == with_state(
            old(m)@,
            field.slot_in(old(m)@),
            exercised_state(field@.ftype),
        ),
        wf_message(final(m)@),
    {
    let read_view = field.get_map(m);
    let e = read_view.is_empty();
    assert(e);
    let n0 = read_view.len();
    assert(n0 == 0);
    let kt = read_view.key_type();
    let probe = sample_value_for(&kt);
    let missing = read_view.get(&probe);
    proof {
        crate::model::lemma_map_view_membership(read_view@, probe@);
    }
    assert(missing is None);
    let mut map = field.take_map(m);
    let e2 = map.is_empty();
    assert(e2);
    let kt2 = map.key_type();
    let vt2 = map.value_type();
    let key = sample_value_for(&kt2);
    let value = sample_value_for(&vt2);
    proof {
        crate::model::lemma_map_view_membership(map@, key@);
    }
    map.insert(key.deep_clone(), value.deep_clone());
    let got = map.get(&key);
    match got {
        Some(v) => {
            let same = v.value_eq(&value);
            assert(same);
        },
        None => {
            assert(false);
            unreached()
        },
    }
    let n1 = map.len();
    assert(n1 == 1);
    field.put_map(m, map);
    proof {
        assert(final(m)@.fields =~= old(m)@.fields.update(
            field.slot_in(old(m)@),
            exercised_state(field@.ftype),
        ));
    }
}

/// One dispatch over `runtime_field_type()` routes every field to the
/// accessor family of its kind; verification shows no kind or type
/// mismatch is reachable for any field of any well-formed schema.
pub fn exercise_field(m: &mut DynamicMessage, field: &FieldDescriptor)
    requires
        wf_message(old(m)@),
        field.valid_for(old(m)@.desc),
        field.state_in(old(m)@) == default_state(field@.ftype),
    ensures
        final(m)@ == with_state(
            old(m)@,
            field.slot_in(old(m)@),
            exercised_state(field@.ftype),
        ),
        wf_message(final(m)@),
    {
    let ft = field.runtime_field_type();
    match ft {
        RuntimeFieldType::Singular(_) => exercise_singular_field(m, field),
        RuntimeFieldType::Repeated(_) => exercise_repeated_field(m, field),
        RuntimeFieldType::Mapping(_, _) => exercise_map_field(m, field),
    }
}

/// Runs the per-kind routine over every field of a fresh message: each
/// field ends in its exercised state, and no dispatch mismatch is
/// reachable for any schema.
#[verifier::loop_isolation(false)]
pub fn exercise_all_fields(m: &mut DynamicMessage)
    requires
        wf_message(old(m)@),
        old(m)@ == fresh_message(old(m)@.desc),
    ensures
        wf_message(final(m)@),
        final(m)@.desc == old(m)@.desc,
        final(m)@.fields.len() == old(m)@.fields.len(),
        forall|j: int|
            0 <= j < final(m)@.fields.len() ==> final(m)@.fields[j] == exercised_state(
                old(m)@.desc.fields[j].ftype,
            ),
    {
    let count = m.descriptor().field_count();
    let ghost d = old(m)@.desc;
    let mut i: usize = 0;
    while i < count
        invariant
            count == d.fields.len(),
            i <= count,
            m@.desc == d,
            m@.fields.len() == d.fields.len(),
            wf_message(m@),
            forall|j: int|
                0 <= j < i ==> m@.fields[j] == exercised_state(d.fields[j].ftype),
            forall|j: int|
                i <= j < d.fields.len() ==> m@.fields[j] == default_state(
                    #[trigger] d.fields[j].ftype,
                ),
        decreases count - i,
    {
        let field = m.descriptor().field(i);
        proof {
            lemma_slot_of(d, i as int);
        }
        exercise_field(m, &field);
        i += 1;
    }
}

} // verus!
