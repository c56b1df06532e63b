//! The library's laws, stated once over the model and proved.

use vstd::prelude::*;

use crate::model::{
    fresh_message, fresh_states, lemma_default_conforms, map_view, singular_or_default,
    state_len, state_matches, state_present, value_conforms, with_state, DescriptorModel,
    FieldStateModel, FieldTypeModel, TypeModel, ValueModel,
};

verus! {

broadcast use vstd::seq::group_seq_axioms;

/// On a fresh message, a singular field is absent; immediately after a
/// singular write it is present — whatever value was written, a
/// zero-equivalent one included.
pub proof fn lemma_singular_presence(d: DescriptorModel, i: int, v: ValueModel)
    requires
        0 <= i < d.fields.len(),
        d.fields[i].ftype is Singular,
    ensures
        !state_present(fresh_message(d).fields[i]),
        state_present(
            with_state(fresh_message(d), i, FieldStateModel::Singular(v)).fields[i],
        ),
{
    assert(fresh_states(d.fields)[i] == FieldStateModel::Unset);
}

/// Reading a singular field through its default never fails, and the result
/// always conforms to — carries the tag of — the field's declared type,
/// whether the field is present or absent.
pub proof fn lemma_get_or_default_conforms(s: FieldStateModel, t: TypeModel)
    requires
        state_matches(s, FieldTypeModel::Singular(t)),
    ensures
        value_conforms(singular_or_default(s, t), t),
{
    match s {
        FieldStateModel::Singular(_) => {},
        _ => {
            lemma_default_conforms(t);
        },
    }
}

/// On a fresh message every field has length 0; storing a sequence into a
/// repeated slot makes `len_field` the sequence's length and puts the
/// `i`-th appended value at index `i`; the stored view equals the appended
/// sequence.
pub proof fn lemma_repeated_roundtrip(d: DescriptorModel, i: int, vs: Seq<ValueModel>)
    requires
        0 <= i < d.fields.len(),
    ensures
        state_len(fresh_message(d).fields[i]) == 0,
        state_len(
            with_state(fresh_message(d), i, FieldStateModel::Repeated(vs)).fields[i],
        ) == vs.len(),
        with_state(fresh_message(d), i, FieldStateModel::Repeated(vs)).fields[i]
            == FieldStateModel::Repeated(vs),
        forall|j: int|
            0 <= j < vs.len() ==> with_state(
                fresh_message(d),
                i,
                FieldStateModel::Repeated(vs),
            ).fields[i]->Repeated_0[j] == vs[j],
{
    assert(fresh_states(d.fields)[i] == crate::model::default_state(d.fields[i].ftype));
}

/// Equality between a repeated view and a sequence of values holds in both
/// directions: it is symmetric.
pub proof fn lemma_eq_values_symmetric(a: Seq<ValueModel>, b: Seq<ValueModel>)
    ensures
        (a == b) <==> (b == a),
{
}

/// On an empty map every lookup misses; after inserting one entry the
/// length is 1 and looking that exact key up yields that exact value.
pub proof fn lemma_map_fresh_and_insert(k: ValueModel, v: ValueModel)
    ensures
        !map_view(Seq::<(ValueModel, ValueModel)>::empty()).contains_key(k),
        Seq::<(ValueModel, ValueModel)>::empty().push((k, v)).len() == 1,
        map_view(Seq::<(ValueModel, ValueModel)>::empty().push((k, v))).contains_key(k),
        map_view(Seq::<(ValueModel, ValueModel)>::empty().push((k, v)))[k] == v,
{
    let empty = Seq::<(ValueModel, ValueModel)>::empty();
    crate::model::lemma_map_view_membership(empty, k);
    crate::model::lemma_map_view_push(empty, k, v);
}

} // verus!
