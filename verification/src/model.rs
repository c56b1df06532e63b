//! The mathematical model of schemas, messages and values.
//!
//! Every executable type of the library has a view into these ghost types,
//! and every contract is stated over them.  A schema is a `DescriptorModel`;
//! one message instance is a `MessageModel`: its descriptor together with one
//! `FieldStateModel` per declared field, in declaration order.

use vstd::prelude::*;

verus! {

broadcast use vstd::seq::group_seq_axioms;

/// Shape of one value a field can hold.  Floating-point payloads are carried
/// as their IEEE-754 bit patterns, so the model stays within the integers.
#[verifier::ext_equal]
pub enum TypeModel {
    Bool,
    I32,
    I64,
    U32,
    U64,
    F32,
    F64,
    Str,
    Bytes,
    Enum(EnumDescModel),
    Message(DescriptorModel),
}

/// Model of an enum schema: its full name and the number of its default value.
#[verifier::ext_equal]
pub struct EnumDescModel {
    pub full_name: Seq<char>,
    pub default_number: i32,
}

/// Model of a message schema: full type name and its fields in declaration order.
#[verifier::ext_equal]
pub struct DescriptorModel {
    pub full_name: Seq<char>,
    pub fields: Seq<FieldModel>,
}

/// Model of one field declaration.
#[verifier::ext_equal]
pub struct FieldModel {
    pub name: Seq<char>,
    pub ftype: FieldTypeModel,
}

/// The three field kinds: at most one value, an ordered sequence, or a
/// key/value map.
#[verifier::ext_equal]
pub enum FieldTypeModel {
    Singular(TypeModel),
    Repeated(TypeModel),
    Mapping(TypeModel, TypeModel),
}

/// Model of one value: the tagged union over all shapes of `TypeModel`.
#[verifier::ext_equal]
pub enum ValueModel {
    Bool(bool),
    I32(i32),
    I64(i64),
    U32(u32),
    U64(u64),
    F32(u32),
    F64(u64),
    Str(Seq<char>),
    Bytes(Seq<u8>),
    Enum(EnumDescModel, i32),
    Message(MessageModel),
}

/// Model of one message instance.
#[verifier::ext_equal]
pub struct MessageModel {
    pub desc: DescriptorModel,
    pub fields: Seq<FieldStateModel>,
}

/// Stored state of one field slot.  A singular field is `Unset` until an
/// explicit write marks it present, even with a value equal to the default.
#[verifier::ext_equal]
pub enum FieldStateModel {
    Unset,
    Singular(ValueModel),
    Repeated(Seq<ValueModel>),
    Mapping(Seq<(ValueModel, ValueModel)>),
}

// ---------------------------------------------------------------------------
// Well-formed schemas
// ---------------------------------------------------------------------------

/// Field names are unique within a message and every field type is well formed.
pub open spec fn wf_descriptor(d: DescriptorModel) -> bool
    decreases d,
{
    &&& (forall|i: int, j: int|
        0 <= i < j < d.fields.len() ==> d.fields[i].name != d.fields[j].name)
    &&& wf_fields(d.fields)
}

pub open spec fn wf_fields(fs: Seq<FieldModel>) -> bool
    decreases fs,
{
    if fs.len() == 0 {
        true
    } else {
        wf_fields(fs.drop_last()) && wf_field_type(fs.last().ftype)
    }
}

pub open spec fn wf_field_type(ft: FieldTypeModel) -> bool
    decreases ft,
{
    match ft {
        FieldTypeModel::Singular(t) => wf_type(t),
        FieldTypeModel::Repeated(t) => wf_type(t),
        FieldTypeModel::Mapping(k, v) => wf_type(k) && wf_type(v),
    }
}

pub open spec fn wf_type(t: TypeModel) -> bool
    decreases t,
{
    match t {
        TypeModel::Message(d) => wf_descriptor(d),
        _ => true,
    }
}

pub broadcast proof fn lemma_wf_fields(fs: Seq<FieldModel>)
    ensures
        #[trigger] wf_fields(fs) <==> (forall|i: int|
            0 <= i < fs.len() ==> wf_field_type(#[trigger] fs[i].ftype)),
    decreases fs,
{
    if fs.len() > 0 {
        lemma_wf_fields(fs.drop_last());
        assert(forall|i: int| 0 <= i < fs.len() - 1 ==> fs.drop_last()[i] == fs[i]);
        assert(fs.last() == fs[fs.len() - 1]);
    }
}

// ---------------------------------------------------------------------------
// Conformance of values and field states to declared types
// ---------------------------------------------------------------------------

/// The value's active tag matches the declared type; a message value carries
/// exactly the declared descriptor, and its own fields conform in turn.
pub open spec fn value_conforms(v: ValueModel, t: TypeModel) -> bool
    decreases v,
{
    match (v, t) {
        (ValueModel::Bool(_), TypeModel::Bool) => true,
        (ValueModel::I32(_), TypeModel::I32) => true,
        (ValueModel::I64(_), TypeModel::I64) => true,
        (ValueModel::U32(_), TypeModel::U32) => true,
        (ValueModel::U64(_), TypeModel::U64) => true,
        (ValueModel::F32(_), TypeModel::F32) => true,
        (ValueModel::F64(_), TypeModel::F64) => true,
        (ValueModel::Str(_), TypeModel::Str) => true,
        (ValueModel::Bytes(_), TypeModel::Bytes) => true,
        (ValueModel::Enum(d, _), TypeModel::Enum(dt)) => d == dt,
        (ValueModel::Message(m), TypeModel::Message(d)) => {
            m.desc == d && conforms_states(m.fields, m.desc.fields)
        },
        _ => false,
    }
}

/// One state per declared field, each matching its field's kind and type.
pub open spec fn conforms_states(states: Seq<FieldStateModel>, fields: Seq<FieldModel>) -> bool
    decreases states,
{
    if states.len() != fields.len() {
        false
    } else if states.len() == 0 {
        true
    } else {
        conforms_states(states.drop_last(), fields.drop_last())
            && state_matches(states.last(), fields.last().ftype)
    }
}

pub open spec fn state_matches(s: FieldStateModel, ft: FieldTypeModel) -> bool
    decreases s,
{
    match (s, ft) {
        (FieldStateModel::Unset, FieldTypeModel::Singular(_)) => true,
        (FieldStateModel::Singular(v), FieldTypeModel::Singular(t)) => value_conforms(v, t),
        (FieldStateModel::Repeated(vs), FieldTypeModel::Repeated(t)) => values_conform(vs, t),
        (FieldStateModel::Mapping(es), FieldTypeModel::Mapping(kt, vt)) => {
            unique_keys(es) && entries_conform(es, kt, vt)
        },
        _ => false,
    }
}

pub open spec fn values_conform(vs: Seq<ValueModel>, t: TypeModel) -> bool
    decreases vs,
{
    if vs.len() == 0 {
        true
    } else {
        values_conform(vs.drop_last(), t) && value_conforms(vs.last(), t)
    }
}

pub open spec fn entries_conform(
    es: Seq<(ValueModel, ValueModel)>,
    kt: TypeModel,
    vt: TypeModel,
) -> bool
    decreases es,
{
    if es.len() == 0 {
        true
    } else {
        entries_conform(es.drop_last(), kt, vt) && value_conforms(es.last().0, kt)
            && value_conforms(es.last().1, vt)
    }
}

/// No two entries of a map state share a key.
pub open spec fn unique_keys(es: Seq<(ValueModel, ValueModel)>) -> bool {
    forall|i: int, j: int| 0 <= i < j < es.len() ==> es[i].0 != es[j].0
}

/// A message instance is well formed when its schema is and every field state
/// conforms to its declaration.
pub open spec fn wf_message(m: MessageModel) -> bool {
    wf_descriptor(m.desc) && conforms_states(m.fields, m.desc.fields)
}

pub broadcast proof fn lemma_conforms_states(states: Seq<FieldStateModel>, fields: Seq<FieldModel>)
    ensures
        #[trigger] conforms_states(states, fields) <==> (states.len() == fields.len()
            && (forall|i: int|
            0 <= i < states.len() ==> state_matches(#[trigger] states[i], fields[i].ftype))),
    decreases states,
{
    if states.len() == fields.len() && states.len() > 0 {
        lemma_conforms_states(states.drop_last(), fields.drop_last());
        assert(forall|i: int|
            0 <= i < states.len() - 1 ==> states.drop_last()[i] == states[i]
                && fields.drop_last()[i] == fields[i]);
        assert(states.last() == states[states.len() - 1]);
        assert(fields.last() == fields[fields.len() - 1]);
    }
}

pub broadcast proof fn lemma_values_conform(vs: Seq<ValueModel>, t: TypeModel)
    ensures
        #[trigger] values_conform(vs, t) <==> (forall|i: int|
            0 <= i < vs.len() ==> value_conforms(#[trigger] vs[i], t)),
    decreases vs,
{
    if vs.len() > 0 {
        lemma_values_conform(vs.drop_last(), t);
        assert(forall|i: int| 0 <= i < vs.len() - 1 ==> vs.drop_last()[i] == vs[i]);
        assert(vs.last() == vs[vs.len() - 1]);
    }
}

pub broadcast proof fn lemma_entries_conform(
    es: Seq<(ValueModel, ValueModel)>,
    kt: TypeModel,
    vt: TypeModel,
)
    ensures
        #[trigger] entries_conform(es, kt, vt) <==> (forall|i: int|
            0 <= i < es.len() ==> value_conforms(#[trigger] es[i].0, kt) && value_conforms(
                es[i].1,
                vt,
            )),
    decreases es,
{
    if es.len() > 0 {
        lemma_entries_conform(es.drop_last(), kt, vt);
        assert(forall|i: int| 0 <= i < es.len() - 1 ==> es.drop_last()[i] == es[i]);
        assert(es.last() == es[es.len() - 1]);
    }
}

// ---------------------------------------------------------------------------
// Fresh messages and default values
// ---------------------------------------------------------------------------

/// The state a field slot has before any write.
pub open spec fn default_state(ft: FieldTypeModel) -> FieldStateModel {
    match ft {
        FieldTypeModel::Singular(_) => FieldStateModel::Unset,
        FieldTypeModel::Repeated(_) => FieldStateModel::Repeated(Seq::empty()),
        FieldTypeModel::Mapping(_, _) => FieldStateModel::Mapping(Seq::empty()),
    }
}

pub open spec fn fresh_states(fields: Seq<FieldModel>) -> Seq<FieldStateModel> {
    Seq::new(fields.len(), |i: int| default_state(fields[i].ftype))
}

/// A freshly constructed instance of a schema: every field absent or empty.
pub open spec fn fresh_message(d: DescriptorModel) -> MessageModel {
    MessageModel { desc: d, fields: fresh_states(d.fields) }
}

/// The zero/default value of each type: `false`, `0`, the empty string or
/// byte sequence, the enum's default number, or an unpopulated message.
pub open spec fn default_of(t: TypeModel) -> ValueModel {
    match t {
        TypeModel::Bool => ValueModel::Bool(false),
        TypeModel::I32 => ValueModel::I32(0),
        TypeModel::I64 => ValueModel::I64(0),
        TypeModel::U32 => ValueModel::U32(0),
        TypeModel::U64 => ValueModel::U64(0),
        TypeModel::F32 => ValueModel::F32(0),
        TypeModel::F64 => ValueModel::F64(0),
        TypeModel::Str => ValueModel::Str(Seq::empty()),
        TypeModel::Bytes => ValueModel::Bytes(Seq::empty()),
        TypeModel::Enum(d) => ValueModel::Enum(d, d.default_number),
        TypeModel::Message(d) => ValueModel::Message(fresh_message(d)),
    }
}

/// A fresh message conforms to its own schema.
pub proof fn lemma_fresh_message_conforms(d: DescriptorModel)
    ensures
        conforms_states(fresh_states(d.fields), d.fields),
{
    broadcast use lemma_conforms_states;

    assert(fresh_states(d.fields).len() == d.fields.len());
    assert forall|i: int| 0 <= i < d.fields.len() implies state_matches(
        #[trigger] fresh_states(d.fields)[i],
        d.fields[i].ftype,
    ) by {
        match d.fields[i].ftype {
            FieldTypeModel::Singular(_) => {},
            FieldTypeModel::Repeated(t) => {
                assert(values_conform(Seq::empty(), t));
            },
            FieldTypeModel::Mapping(kt, vt) => {
                assert(entries_conform(Seq::empty(), kt, vt));
            },
        }
    }
}

/// The default value of a type conforms to that type.
pub proof fn lemma_default_conforms(t: TypeModel)
    ensures
        value_conforms(default_of(t), t),
{
    match t {
        TypeModel::Message(d) => {
            lemma_fresh_message_conforms(d);
        },
        _ => {},
    }
}

// ---------------------------------------------------------------------------
// Reading and writing field slots, in the model
// ---------------------------------------------------------------------------

/// Field presence: a singular slot is present once explicitly set; a repeated
/// or map slot counts as present when it is non-empty.
pub open spec fn state_present(s: FieldStateModel) -> bool {
    match s {
        FieldStateModel::Unset => false,
        FieldStateModel::Singular(_) => true,
        FieldStateModel::Repeated(vs) => vs.len() > 0,
        FieldStateModel::Mapping(es) => es.len() > 0,
    }
}

/// Element count: 0 for an absent singular slot, 1 for a present one, the
/// length for repeated and map slots.
pub open spec fn state_len(s: FieldStateModel) -> nat {
    match s {
        FieldStateModel::Unset => 0,
        FieldStateModel::Singular(_) => 1,
        FieldStateModel::Repeated(vs) => vs.len(),
        FieldStateModel::Mapping(es) => es.len(),
    }
}

/// The stored value of a singular slot, or the type's default when absent.
pub open spec fn singular_or_default(s: FieldStateModel, t: TypeModel) -> ValueModel {
    match s {
        FieldStateModel::Singular(v) => v,
        _ => default_of(t),
    }
}

/// The message with field slot `i` replaced; everything else unchanged.
pub open spec fn with_state(m: MessageModel, i: int, s: FieldStateModel) -> MessageModel {
    MessageModel { desc: m.desc, fields: m.fields.update(i, s) }
}

// ---------------------------------------------------------------------------
// The map view of a map field's entries
// ---------------------------------------------------------------------------

/// The unordered map a sequence of entries denotes; later entries would win,
/// but under `unique_keys` each key occurs at most once.
pub open spec fn map_view(es: Seq<(ValueModel, ValueModel)>) -> Map<ValueModel, ValueModel>
    decreases es,
{
    if es.len() == 0 {
        Map::empty()
    } else {
        map_view(es.drop_last()).insert(es.last().0, es.last().1)
    }
}

/// A key is in the map view exactly when some entry holds it.
pub broadcast proof fn lemma_map_view_membership(es: Seq<(ValueModel, ValueModel)>, k: ValueModel)
    ensures
        #[trigger] map_view(es).contains_key(k) <==> (exists|i: int|
            0 <= i < es.len() && (#[trigger] es[i]).0 == k),
    decreases es,
{
    if es.len() > 0 {
        lemma_map_view_membership(es.drop_last(), k);
        if es.last().0 == k {
            assert(es[es.len() - 1].0 == k);
        } else if map_view(es).contains_key(k) {
            let i = choose|i: int| 0 <= i < es.len() - 1 && (#[trigger] es.drop_last()[i]).0 == k;
            assert(es[i].0 == k);
        } else {
            assert(forall|i: int|
                0 <= i < es.len() - 1 ==> (#[trigger] es[i]) == es.drop_last()[i]);
        }
    }
}

/// Under unique keys, the map view sends each entry's key to its value.
pub proof fn lemma_map_view_get(es: Seq<(ValueModel, ValueModel)>, i: int)
    requires
        unique_keys(es),
        0 <= i < es.len(),
    ensures
        map_view(es).contains_key(es[i].0),
        map_view(es)[es[i].0] == es[i].1,
    decreases es,
{
    lemma_map_view_membership(es, es[i].0);
    if i == es.len() - 1 {
        assert(es.last() == es[i]);
    } else {
        assert(unique_keys(es.drop_last())) by {
            assert(forall|p: int, q: int|
                0 <= p < q < es.len() - 1 ==> (#[trigger] es.drop_last()[p]).0
                    != (#[trigger] es.drop_last()[q]).0);
        }
        assert(es.drop_last()[i] == es[i]);
        lemma_map_view_get(es.drop_last(), i);
        assert(es.last().0 != es[i].0);
    }
}

/// Appending a fresh key is insertion into the map view.
pub proof fn lemma_map_view_push(es: Seq<(ValueModel, ValueModel)>, k: ValueModel, v: ValueModel)
    ensures
        map_view(es.push((k, v))) == map_view(es).insert(k, v),
{
    assert(es.push((k, v)).drop_last() =~= es);
    assert(es.push((k, v)).last() == (k, v));
}

/// Overwriting the entry that holds a key is insertion into the map view.
pub proof fn lemma_map_view_update(es: Seq<(ValueModel, ValueModel)>, i: int, v: ValueModel)
    requires
        unique_keys(es),
        0 <= i < es.len(),
    ensures
        map_view(es.update(i, (es[i].0, v))) == map_view(es).insert(es[i].0, v),
    decreases es,
{
    let k = es[i].0;
    let up = es.update(i, (k, v));
    if i == es.len() - 1 {
        assert(up.drop_last() =~= es.drop_last());
        assert(up.last() == (k, v));
    } else {
        assert(unique_keys(es.drop_last())) by {
            assert(forall|p: int, q: int|
                0 <= p < q < es.len() - 1 ==> (#[trigger] es.drop_last()[p]).0
                    != (#[trigger] es.drop_last()[q]).0);
        }
        assert(es.drop_last()[i] == es[i]);
        lemma_map_view_update(es.drop_last(), i, v);
        assert(up.drop_last() =~= es.drop_last().update(i, (k, v)));
        assert(up.last() == es.last());
        assert(es.last().0 != k);
        assert(map_view(up) == map_view(es.drop_last()).insert(k, v).insert(
            es.last().0,
            es.last().1,
        ));
        assert(map_view(es.drop_last()).insert(k, v).insert(es.last().0, es.last().1)
            =~= map_view(es.drop_last()).insert(es.last().0, es.last().1).insert(k, v));
    }
}

/// Updating one entry's value keeps the keys unique.
pub proof fn lemma_unique_keys_update(es: Seq<(ValueModel, ValueModel)>, i: int, v: ValueModel)
    requires
        unique_keys(es),
        0 <= i < es.len(),
    ensures
        unique_keys(es.update(i, (es[i].0, v))),
{
    let up = es.update(i, (es[i].0, v));
    assert(forall|p: int| 0 <= p < es.len() ==> (#[trigger] up[p]).0 == es[p].0);
}

/// Appending a key no entry holds keeps the keys unique.
pub proof fn lemma_unique_keys_push(es: Seq<(ValueModel, ValueModel)>, k: ValueModel, v: ValueModel)
    requires
        unique_keys(es),
        forall|i: int| 0 <= i < es.len() ==> (#[trigger] es[i]).0 != k,
    ensures
        unique_keys(es.push((k, v))),
{
}

} // verus!
