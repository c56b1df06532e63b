//! The executable data types: descriptors, values and message instances.
//!
//! Each type's view is the corresponding ghost model of `crate::model`.
//! Floating-point fields carry their values as IEEE-754 bit patterns
//! (`u32`/`u64`), so the whole layer stays within exactly representable data.

use vstd::prelude::*;

use crate::model::{
    DescriptorModel, EnumDescModel, FieldModel, FieldStateModel, FieldTypeModel, MessageModel,
    TypeModel, ValueModel,
};

verus! {

broadcast use vstd::seq::group_seq_axioms, vstd::std_specs::vec::group_vec_axioms;

/// Schema of an enum type: full name and the number of its default value.
pub struct EnumDescriptor {
    pub full_name: String,
    pub default_number: i32,
}

/// The closed set of value shapes a field can hold.  `F32` and `F64` values
/// are carried as IEEE-754 bit patterns.
pub enum RuntimeValueType {
    Bool,
    I32,
    I64,
    U32,
    U64,
    F32,
    F64,
    Str,
    Bytes,
    Enum(EnumDescriptor),
    Message(Box<MessageDescriptor>),
}

/// A field's kind and element type(s): at most one value, an ordered
/// sequence, or a key/value map.
pub enum RuntimeFieldType {
    Singular(RuntimeValueType),
    Repeated(RuntimeValueType),
    Mapping(RuntimeValueType, RuntimeValueType),
}

/// Metadata of one field: its name, kind and declared value type(s).
pub struct FieldDescriptor {
    pub name: String,
    pub ftype: RuntimeFieldType,
}

/// The schema catalog of one message type: full name and fields in
/// declaration order.
pub struct MessageDescriptor {
    pub full_name: String,
    pub fields: Vec<FieldDescriptor>,
}

/// An owned, tagged value: the universal currency for reading and writing
/// fields generically.  The active tag always matches the declared
/// `RuntimeValueType` of the field it is stored in.
pub enum ReflectValueBox {
    Bool(bool),
    I32(i32),
    I64(i64),
    U32(u32),
    U64(u64),
    F32(u32),
    F64(u64),
    Str(String),
    Bytes(Vec<u8>),
    Enum(EnumDescriptor, i32),
    Message(Box<DynamicMessage>),
}

/// Backing storage of one field slot of a message instance.
pub enum FieldState {
    Unset,
    Singular(ReflectValueBox),
    Repeated(Vec<ReflectValueBox>),
    Mapping(Vec<(ReflectValueBox, ReflectValueBox)>),
}

/// One message instance: its schema and one state per declared field.
pub struct DynamicMessage {
    pub descriptor: MessageDescriptor,
    pub fields: Vec<FieldState>,
}

// ---------------------------------------------------------------------------
// Models of the executable types
// ---------------------------------------------------------------------------

pub open spec fn enum_model(e: EnumDescriptor) -> EnumDescModel {
    EnumDescModel { full_name: e.full_name@, default_number: e.default_number }
}

pub open spec fn type_model(t: RuntimeValueType) -> TypeModel
    decreases t,
{
    match t {
        RuntimeValueType::Bool => TypeModel::Bool,
        RuntimeValueType::I32 => TypeModel::I32,
        RuntimeValueType::I64 => TypeModel::I64,
        RuntimeValueType::U32 => TypeModel::U32,
        RuntimeValueType::U64 => TypeModel::U64,
        RuntimeValueType::F32 => TypeModel::F32,
        RuntimeValueType::F64 => TypeModel::F64,
        RuntimeValueType::Str => TypeModel::Str,
        RuntimeValueType::Bytes => TypeModel::Bytes,
        RuntimeValueType::Enum(e) => TypeModel::Enum(enum_model(e)),
        RuntimeValueType::Message(d) => TypeModel::Message(desc_model(*d)),
    }
}

pub open spec fn ftype_model(ft: RuntimeFieldType) -> FieldTypeModel
    decreases ft,
{
    match ft {
        RuntimeFieldType::Singular(t) => FieldTypeModel::Singular(type_model(t)),
        RuntimeFieldType::Repeated(t) => FieldTypeModel::Repeated(type_model(t)),
        RuntimeFieldType::Mapping(k, v) => FieldTypeModel::Mapping(type_model(k), type_model(v)),
    }
}

pub open spec fn field_model(f: FieldDescriptor) -> FieldModel
    decreases f,
{
    FieldModel { name: f.name@, ftype: ftype_model(f.ftype) }
}

pub open spec fn fields_model(fs: Seq<FieldDescriptor>) -> Seq<FieldModel>
    decreases fs,
{
    if fs.len() == 0 {
        Seq::empty()
    } else {
        fields_model(fs.drop_last()).push(field_model(fs.last()))
    }
}

pub open spec fn desc_model(d: MessageDescriptor) -> DescriptorModel
    decreases d,
{
    DescriptorModel { full_name: d.full_name@, fields: fields_model(d.fields@) }
}

pub open spec fn value_model(v: ReflectValueBox) -> ValueModel
    decreases v,
{
    match v {
        ReflectValueBox::Bool(b) => ValueModel::Bool(b),
        ReflectValueBox::I32(x) => ValueModel::I32(x),
        ReflectValueBox::I64(x) => ValueModel::I64(x),
        ReflectValueBox::U32(x) => ValueModel::U32(x),
        ReflectValueBox::U64(x) => ValueModel::U64(x),
        ReflectValueBox::F32(x) => ValueModel::F32(x),
        ReflectValueBox::F64(x) => ValueModel::F64(x),
        ReflectValueBox::Str(s) => ValueModel::Str(s@),
        ReflectValueBox::Bytes(b) => ValueModel::Bytes(b@),
        ReflectValueBox::Enum(e, n) => ValueModel::Enum(enum_model(e), n),
        ReflectValueBox::Message(m) => ValueModel::Message(message_model(*m)),
    }
}

pub open spec fn values_model(vs: Seq<ReflectValueBox>) -> Seq<ValueModel>
    decreases vs,
{
    if vs.len() == 0 {
        Seq::empty()
    } else {
        values_model(vs.drop_last()).push(value_model(vs.last()))
    }
}

pub open spec fn entry_model(e: (ReflectValueBox, ReflectValueBox)) -> (ValueModel, ValueModel) {
    (value_model(e.0), value_model(e.1))
}

pub open spec fn entries_model(es: Seq<(ReflectValueBox, ReflectValueBox)>) -> Seq<
    (ValueModel, ValueModel),
>
    decreases es,
{
    if es.len() == 0 {
        Seq::empty()
    } else {
        entries_model(es.drop_last()).push(
            (value_model(es.last().0), value_model(es.last().1)),
        )
    }
}

pub open spec fn state_model(s: FieldState) -> FieldStateModel
    decreases s,
{
    match s {
        FieldState::Unset => FieldStateModel::Unset,
        FieldState::Singular(v) => FieldStateModel::Singular(value_model(v)),
        FieldState::Repeated(vs) => FieldStateModel::Repeated(values_model(vs@)),
        FieldState::Mapping(es) => FieldStateModel::Mapping(entries_model(es@)),
    }
}

pub open spec fn states_model(ss: Seq<FieldState>) -> Seq<FieldStateModel>
    decreases ss,
{
    if ss.len() == 0 {
        Seq::empty()
    } else {
        states_model(ss.drop_last()).push(state_model(ss.last()))
    }
}

pub open spec fn message_model(m: DynamicMessage) -> MessageModel
    decreases m,
{
    MessageModel { desc: desc_model(m.descriptor), fields: states_model(m.fields@) }
}

impl View for EnumDescriptor {
    type V = EnumDescModel;

    open spec fn view(&self) -> EnumDescModel {
        enum_model(*self)
    }
}

impl View for RuntimeValueType {
    type V = TypeModel;

    open spec fn view(&self) -> TypeModel {
        type_model(*self)
    }
}

impl View for RuntimeFieldType {
    type V = FieldTypeModel;

    open spec fn view(&self) -> FieldTypeModel {
        ftype_model(*self)
    }
}

impl View for FieldDescriptor {
    type V = FieldModel;

    open spec fn view(&self) -> FieldModel {
        field_model(*self)
    }
}

impl View for MessageDescriptor {
    type V = DescriptorModel;

    open spec fn view(&self) -> DescriptorModel {
        desc_model(*self)
    }
}

impl View for ReflectValueBox {
    type V = ValueModel;

    open spec fn view(&self) -> ValueModel {
        value_model(*self)
    }
}

impl View for FieldState {
    type V = FieldStateModel;

    open spec fn view(&self) -> FieldStateModel {
        state_model(*self)
    }
}

impl View for DynamicMessage {
    type V = MessageModel;

    open spec fn view(&self) -> MessageModel {
        message_model(*self)
    }
}

// ---------------------------------------------------------------------------
// How the sequence models relate to their elements
// ---------------------------------------------------------------------------

pub broadcast proof fn lemma_fields_model(fs: Seq<FieldDescriptor>)
    ensures
        (#[trigger] fields_model(fs)).len() == fs.len(),
        forall|i: int| 0 <= i < fs.len() ==> fields_model(fs)[i] == field_model(#[trigger] fs[i]),
    decreases fs,
{
    if fs.len() > 0 {
        lemma_fields_model(fs.drop_last());
        assert(forall|i: int| 0 <= i < fs.len() - 1 ==> fs.drop_last()[i] == fs[i]);
        assert(fs.last() == fs[fs.len() - 1]);
    }
}

pub broadcast proof fn lemma_values_model(vs: Seq<ReflectValueBox>)
    ensures
        (#[trigger] values_model(vs)).len() == vs.len(),
        forall|i: int| 0 <= i < vs.len() ==> values_model(vs)[i] == value_model(#[trigger] vs[i]),
    decreases vs,
{
    if vs.len() > 0 {
        lemma_values_model(vs.drop_last());
        assert(forall|i: int| 0 <= i < vs.len() - 1 ==> vs.drop_last()[i] == vs[i]);
        assert(vs.last() == vs[vs.len() - 1]);
    }
}

pub broadcast proof fn lemma_entries_model(es: Seq<(ReflectValueBox, ReflectValueBox)>)
    ensures
        (#[trigger] entries_model(es)).len() == es.len(),
        forall|i: int| 0 <= i < es.len() ==> entries_model(es)[i] == entry_model(#[trigger] es[i]),
    decreases es,
{
    if es.len() > 0 {
        lemma_entries_model(es.drop_last());
        assert(forall|i: int| 0 <= i < es.len() - 1 ==> es.drop_last()[i] == es[i]);
        assert(es.last() == es[es.len() - 1]);
    }
}

pub broadcast proof fn lemma_states_model(ss: Seq<FieldState>)
    ensures
        (#[trigger] states_model(ss)).len() == ss.len(),
        forall|i: int| 0 <= i < ss.len() ==> states_model(ss)[i] == state_model(#[trigger] ss[i]),
    decreases ss,
{
    if ss.len() > 0 {
        lemma_states_model(ss.drop_last());
        assert(forall|i: int| 0 <= i < ss.len() - 1 ==> ss.drop_last()[i] == ss[i]);
        assert(ss.last() == ss[ss.len() - 1]);
    }
}

// ---------------------------------------------------------------------------
// Deep copies, exact in the model
// ---------------------------------------------------------------------------

impl EnumDescriptor {
    pub fn deep_clone(&self) -> (r: EnumDescriptor)
        ensures
            r@ == self@,
    {
        EnumDescriptor { full_name: self.full_name.clone(), default_number: self.default_number }
    }
}

impl RuntimeValueType {
    pub fn deep_clone(&self) -> (r: RuntimeValueType)
        ensures
            r@ == self@,
        decreases self,
    {
        match self {
            RuntimeValueType::Bool => RuntimeValueType::Bool,
            RuntimeValueType::I32 => RuntimeValueType::I32,
            RuntimeValueType::I64 => RuntimeValueType::I64,
            RuntimeValueType::U32 => RuntimeValueType::U32,
            RuntimeValueType::U64 => RuntimeValueType::U64,
            RuntimeValueType::F32 => RuntimeValueType::F32,
            RuntimeValueType::F64 => RuntimeValueType::F64,
            RuntimeValueType::Str => RuntimeValueType::Str,
            RuntimeValueType::Bytes => RuntimeValueType::Bytes,
            RuntimeValueType::Enum(e) => RuntimeValueType::Enum(e.deep_clone()),
            RuntimeValueType::Message(d) => RuntimeValueType::Message(Box::new(d.deep_clone())),
        }
    }
}

impl RuntimeFieldType {
    pub fn deep_clone(&self) -> (r: RuntimeFieldType)
        ensures
            r@ == self@,
        decreases self,
    {
        match self {
            RuntimeFieldType::Singular(t) => RuntimeFieldType::Singular(t.deep_clone()),
            RuntimeFieldType::Repeated(t) => RuntimeFieldType::Repeated(t.deep_clone()),
            RuntimeFieldType::Mapping(k, v) => RuntimeFieldType::Mapping(
                k.deep_clone(),
                v.deep_clone(),
            ),
        }
    }
}

impl FieldDescriptor {
    pub fn deep_clone(&self) -> (r: FieldDescriptor)
        ensures
            r@ == self@,
        decreases self,
    {
        FieldDescriptor { name: self.name.clone(), ftype: self.ftype.deep_clone() }
    }
}

impl MessageDescriptor {
    pub fn deep_clone(&self) -> (r: MessageDescriptor)
        ensures
            r@ == self@,
        decreases self,
    {
        broadcast use lemma_fields_model;

        let mut fields: Vec<FieldDescriptor> = Vec::new();
        let mut i: usize = 0;
        while i < self.fields.len()
            invariant
                i <= self.fields.len(),
                fields@.len() == i as int,
                forall|j: int|
                    0 <= j < i ==> field_model(#[trigger] fields@[j]) == field_model(
                        self.fields@[j],
                    ),
            decreases self.fields.len() - i,
        {
            let fd = self.fields[i].deep_clone();
            fields.push(fd);
            i += 1;
        }
        proof {
            lemma_fields_model_congruent(fields@, self.fields@);
        }
        MessageDescriptor { full_name: self.full_name.clone(), fields }
    }
}

/// Two field sequences with equal per-field models have equal sequence models.
pub proof fn lemma_fields_model_congruent(a: Seq<FieldDescriptor>, b: Seq<FieldDescriptor>)
    requires
        a.len() == b.len(),
        forall|i: int| 0 <= i < a.len() ==> field_model(#[trigger] a[i]) == field_model(b[i]),
    ensures
        fields_model(a) == fields_model(b),
{
    broadcast use lemma_fields_model;

    assert forall|i: int| 0 <= i < a.len() implies fields_model(a)[i] == fields_model(b)[i] by {
        assert(field_model(a[i]) == field_model(b[i]));
    }
    assert(fields_model(a) =~= fields_model(b));
}

impl ReflectValueBox {
    /// A copy whose model equals this value's, recursively through nested
    /// messages.
    pub fn deep_clone(&self) -> (r: ReflectValueBox)
        ensures
            r@ == self@,
        decreases self,
    {
        match self {
            ReflectValueBox::Bool(b) => ReflectValueBox::Bool(*b),
            ReflectValueBox::I32(x) => ReflectValueBox::I32(*x),
            ReflectValueBox::I64(x) => ReflectValueBox::I64(*x),
            ReflectValueBox::U32(x) => ReflectValueBox::U32(*x),
            ReflectValueBox::U64(x) => ReflectValueBox::U64(*x),
            ReflectValueBox::F32(x) => ReflectValueBox::F32(*x),
            ReflectValueBox::F64(x) => ReflectValueBox::F64(*x),
            ReflectValueBox::Str(s) => ReflectValueBox::Str(s.clone()),
            ReflectValueBox::Bytes(b) => ReflectValueBox::Bytes(clone_bytes(b)),
            ReflectValueBox::Enum(e, n) => ReflectValueBox::Enum(e.deep_clone(), *n),
            ReflectValueBox::Message(m) => ReflectValueBox::Message(Box::new(m.deep_clone())),
        }
    }
}

fn clone_bytes(v: &Vec<u8>) -> (r: Vec<u8>)
    ensures
        r@ == v@,
{
    let mut out: Vec<u8> = Vec::new();
    let mut i: usize = 0;
    while i < v.len()
        invariant
            i <= v.len(),
            out@ =~= v@.take(i as int),
        decreases v.len() - i,
    {
        out.push(v[i]);
        i += 1;
    }
    assert(v@.take(v@.len() as int) =~= v@);
    out
}

impl FieldState {
    #[verifier::loop_isolation(false)]
    pub(crate) fn deep_clone(&self) -> (r: FieldState)
        ensures
            r@ == self@,
        decreases self,
    {
        broadcast use lemma_values_model, lemma_entries_model;

        match self {
            FieldState::Unset => FieldState::Unset,
            FieldState::Singular(v) => FieldState::Singular(v.deep_clone()),
            FieldState::Repeated(vs) => {
                let mut out: Vec<ReflectValueBox> = Vec::new();
                let mut i: usize = 0;
                while i < vs.len()
                    invariant
                        i <= vs.len(),
                        out@.len() == i as int,
                        forall|j: int|
                            0 <= j < i ==> value_model(#[trigger] out@[j]) == value_model(vs@[j]),
                    decreases vs.len() - i,
                {
                    proof {
                        assert(decreases_to!(*self => self->Repeated_0));
                        assert(self->Repeated_0 == *vs);
                        assert(decreases_to!(*vs => vs@));
                        assert(decreases_to!(vs@ => vs@[i as int]));
                        assert(decreases_to!(*self => vs@[i as int]));
                    }
                    let v = vs[i].deep_clone();
                    out.push(v);
                    i += 1;
                }
                proof {
                    assert forall|j: int|
                        0 <= j < vs@.len() implies values_model(out@)[j] == values_model(
                        vs@,
                    )[j] by {
                        assert(value_model(out@[j]) == value_model(vs@[j]));
                    }
                    assert(values_model(out@) =~= values_model(vs@));
                }
                FieldState::Repeated(out)
            },
            FieldState::Mapping(es) => {
                let mut out: Vec<(ReflectValueBox, ReflectValueBox)> = Vec::new();
                let mut i: usize = 0;
                while i < es.len()
                    invariant
                        i <= es.len(),
                        out@.len() == i as int,
                        forall|j: int|
                            0 <= j < i ==> entry_model(#[trigger] out@[j]) == entry_model(es@[j]),
                    decreases es.len() - i,
                {
                    proof {
                        assert(decreases_to!(*self => self->Mapping_0));
                        assert(self->Mapping_0 == *es);
                        assert(decreases_to!(*es => es@));
                        assert(decreases_to!(es@ => es@[i as int]));
                        assert(decreases_to!(es@[i as int] => es@[i as int].0));
                        assert(decreases_to!(es@[i as int] => es@[i as int].1));
                        assert(decreases_to!(*self => es@[i as int].0));
                        assert(decreases_to!(*self => es@[i as int].1));
                    }
                    let k = es[i].0.deep_clone();
                    let v = es[i].1.deep_clone();
                    out.push((k, v));
                    i += 1;
                }
                proof {
                    assert forall|j: int|
                        0 <= j < es@.len() implies entries_model(out@)[j] == entries_model(
                        es@,
                    )[j] by {
                        assert(entry_model(out@[j]) == entry_model(es@[j]));
                    }
                    assert(entries_model(out@) =~= entries_model(es@));
                }
                FieldState::Mapping(out)
            },
        }
    }
}

// ---------------------------------------------------------------------------
// Structural equality, exact in the model
// ---------------------------------------------------------------------------

fn bytes_eq(a: &Vec<u8>, b: &Vec<u8>) -> (r: bool)
    ensures
        r == (a@ == b@),
{
    if a.len() != b.len() {
        return false;
    }
    let mut i: usize = 0;
    while i < a.len()
        invariant
            i <= a.len(),
            a@.len() == b@.len(),
            forall|j: int| 0 <= j < i ==> a@[j] == b@[j],
        decreases a.len() - i,
    {
        if a[i] != b[i] {
            return false;
        }
        i += 1;
    }
    proof {
        assert(a@ =~= b@);
    }
    true
}

impl EnumDescriptor {
    pub fn same_as(&self, other: &EnumDescriptor) -> (r: bool)
        ensures
            r == (self@ == other@),
    {
        self.full_name == other.full_name && self.default_number == other.default_number
    }
}

impl RuntimeValueType {
    /// Structural equality of declared types, equivalent to equality of the
    /// models.
    pub fn same_as(&self, other: &RuntimeValueType) -> (r: bool)
        ensures
            r == (self@ == other@),
        decreases self,
    {
        match (self, other) {
            (RuntimeValueType::Bool, RuntimeValueType::Bool) => true,
            (RuntimeValueType::I32, RuntimeValueType::I32) => true,
            (RuntimeValueType::I64, RuntimeValueType::I64) => true,
            (RuntimeValueType::U32, RuntimeValueType::U32) => true,
            (RuntimeValueType::U64, RuntimeValueType::U64) => true,
            (RuntimeValueType::F32, RuntimeValueType::F32) => true,
            (RuntimeValueType::F64, RuntimeValueType::F64) => true,
            (RuntimeValueType::Str, RuntimeValueType::Str) => true,
            (RuntimeValueType::Bytes, RuntimeValueType::Bytes) => true,
            (RuntimeValueType::Enum(e1), RuntimeValueType::Enum(e2)) => e1.same_as(e2),
            (RuntimeValueType::Message(d1), RuntimeValueType::Message(d2)) => d1.same_as(d2),
            _ => false,
        }
    }
}

impl RuntimeFieldType {
    pub fn same_as(&self, other: &RuntimeFieldType) -> (r: bool)
        ensures
            r == (self@ == other@),
        decreases self,
    {
        match (self, other) {
            (RuntimeFieldType::Singular(t1), RuntimeFieldType::Singular(t2)) => t1.same_as(t2),
            (RuntimeFieldType::Repeated(t1), RuntimeFieldType::Repeated(t2)) => t1.same_as(t2),
            (RuntimeFieldType::Mapping(k1, v1), RuntimeFieldType::Mapping(k2, v2)) => {
                k1.same_as(k2) && v1.same_as(v2)
            },
            _ => false,
        }
    }
}

impl FieldDescriptor {
    pub fn same_as(&self, other: &FieldDescriptor) -> (r: bool)
        ensures
            r == (self@ == other@),
        decreases self,
    {
        self.name == other.name && self.ftype.same_as(&other.ftype)
    }
}

impl MessageDescriptor {
    /// Structural equality of schemas, equivalent to equality of the models.
    #[verifier::loop_isolation(false)]
    pub fn same_as(&self, other: &MessageDescriptor) -> (r: bool)
        ensures
            r == (self@ == other@),
        decreases self,
    {
        broadcast use lemma_fields_model;

        if !(self.full_name == other.full_name) {
            return false;
        }
        if self.fields.len() != other.fields.len() {
            proof {
                lemma_fields_model(self.fields@);
                lemma_fields_model(other.fields@);
            }
            return false;
        }
        let mut i: usize = 0;
        while i < self.fields.len()
            invariant
                i <= self.fields.len(),
                forall|j: int|
                    0 <= j < i ==> field_model(#[trigger] self.fields@[j]) == field_model(
                        other.fields@[j],
                    ),
            decreases self.fields.len() - i,
        {
            if !self.fields[i].same_as(&other.fields[i]) {
                proof {
                    assert(fields_model(self.fields@)[i as int] != fields_model(
                        other.fields@,
                    )[i as int]);
                }
                return false;
            }
            i += 1;
        }
        proof {
            lemma_fields_model_congruent(self.fields@, other.fields@);
        }
        true
    }
}

impl ReflectValueBox {
    /// Structural equality of values: tag, then payload, recursively through
    /// nested messages.  Equivalent to equality of the models.
    pub fn value_eq(&self, other: &ReflectValueBox) -> (r: bool)
        ensures
            r == (self@ == other@),
        decreases self,
    {
        match (self, other) {
            (ReflectValueBox::Bool(x), ReflectValueBox::Bool(y)) => *x == *y,
            (ReflectValueBox::I32(x), ReflectValueBox::I32(y)) => *x == *y,
            (ReflectValueBox::I64(x), ReflectValueBox::I64(y)) => *x == *y,
            (ReflectValueBox::U32(x), ReflectValueBox::U32(y)) => *x == *y,
            (ReflectValueBox::U64(x), ReflectValueBox::U64(y)) => *x == *y,
            (ReflectValueBox::F32(x), ReflectValueBox::F32(y)) => *x == *y,
            (ReflectValueBox::F64(x), ReflectValueBox::F64(y)) => *x == *y,
            (ReflectValueBox::Str(x), ReflectValueBox::Str(y)) => *x == *y,
            (ReflectValueBox::Bytes(x), ReflectValueBox::Bytes(y)) => bytes_eq(x, y),
            (ReflectValueBox::Enum(e1, n1), ReflectValueBox::Enum(e2, n2)) => {
                e1.same_as(e2) && *n1 == *n2
            },
            (ReflectValueBox::Message(m1), ReflectValueBox::Message(m2)) => {
                proof {
                    assert(decreases_to!(*self => self->Message_0));
                }
                message_eq(&**m1, &**m2)
            },
            _ => {
                proof {
                    assert(box_tag(*self) != box_tag(*other));
                    assert(value_tag(value_model(*self)) == box_tag(*self));
                    assert(value_tag(value_model(*other)) == box_tag(*other));
                }
                false
            },
        }
    }
}

/// The tag of a value model, used to tell apart values of different shapes.
pub open spec fn value_tag(v: ValueModel) -> int {
    match v {
        ValueModel::Bool(_) => 0,
        ValueModel::I32(_) => 1,
        ValueModel::I64(_) => 2,
        ValueModel::U32(_) => 3,
        ValueModel::U64(_) => 4,
        ValueModel::F32(_) => 5,
        ValueModel::F64(_) => 6,
        ValueModel::Str(_) => 7,
        ValueModel::Bytes(_) => 8,
        ValueModel::Enum(_, _) => 9,
        ValueModel::Message(_) => 10,
    }
}

/// The tag of a stored value, aligned with `value_tag` of its model.
pub open spec fn box_tag(b: ReflectValueBox) -> int {
    match b {
        ReflectValueBox::Bool(_) => 0,
        ReflectValueBox::I32(_) => 1,
        ReflectValueBox::I64(_) => 2,
        ReflectValueBox::U32(_) => 3,
        ReflectValueBox::U64(_) => 4,
        ReflectValueBox::F32(_) => 5,
        ReflectValueBox::F64(_) => 6,
        ReflectValueBox::Str(_) => 7,
        ReflectValueBox::Bytes(_) => 8,
        ReflectValueBox::Enum(_, _) => 9,
        ReflectValueBox::Message(_) => 10,
    }
}

fn message_eq(a: &DynamicMessage, b: &DynamicMessage) -> (r: bool)
    ensures
        r == (a@ == b@),
    decreases a,
{
    a.descriptor.same_as(&b.descriptor) && states_eq(&a.fields, &b.fields)
}

#[verifier::loop_isolation(false)]
fn states_eq(a: &Vec<FieldState>, b: &Vec<FieldState>) -> (r: bool)
    ensures
        r == (states_model(a@) == states_model(b@)),
    decreases a,
{
    broadcast use lemma_states_model;

    if a.len() != b.len() {
        return false;
    }
    let mut i: usize = 0;
    while i < a.len()
        invariant
            i <= a.len(),
            forall|j: int|
                0 <= j < i ==> state_model(#[trigger] a@[j]) == state_model(b@[j]),
        decreases a.len() - i,
    {
        if !state_eq(&a[i], &b[i]) {
            proof {
                assert(states_model(a@)[i as int] != states_model(b@)[i as int]);
            }
            return false;
        }
        i += 1;
    }
    proof {
        assert forall|j: int|
            0 <= j < a@.len() implies states_model(a@)[j] == states_model(b@)[j] by {
            assert(state_model(a@[j]) == state_model(b@[j]));
        }
        assert(states_model(a@) =~= states_model(b@));
    }
    true
}

fn state_eq(a: &FieldState, b: &FieldState) -> (r: bool)
    ensures
        r == (a@ == b@),
    decreases a,
{
    match (a, b) {
        (FieldState::Unset, FieldState::Unset) => true,
        (FieldState::Singular(x), FieldState::Singular(y)) => {
            proof {
                assert(decreases_to!(*a => a->Singular_0));
            }
            x.value_eq(y)
        },
        (FieldState::Repeated(x), FieldState::Repeated(y)) => {
            proof {
                assert(decreases_to!(*a => a->Repeated_0));
            }
            values_eq(x, y)
        },
        (FieldState::Mapping(x), FieldState::Mapping(y)) => {
            proof {
                assert(decreases_to!(*a => a->Mapping_0));
            }
            entries_eq(x, y)
        },
        _ => false,
    }
}

#[verifier::loop_isolation(false)]
pub(crate) fn values_eq(a: &Vec<ReflectValueBox>, b: &Vec<ReflectValueBox>) -> (r: bool)
    ensures
        r == (values_model(a@) == values_model(b@)),
    decreases a,
{
    broadcast use lemma_values_model;

    if a.len() != b.len() {
        return false;
    }
    let mut i: usize = 0;
    while i < a.len()
        invariant
            i <= a.len(),
            forall|j: int|
                0 <= j < i ==> value_model(#[trigger] a@[j]) == value_model(b@[j]),
        decreases a.len() - i,
    {
        if !a[i].value_eq(&b[i]) {
            proof {
                assert(values_model(a@)[i as int] != values_model(b@)[i as int]);
            }
            return false;
        }
        i += 1;
    }
    proof {
        assert forall|j: int|
            0 <= j < a@.len() implies values_model(a@)[j] == values_model(b@)[j] by {
            assert(value_model(a@[j]) == value_model(b@[j]));
        }
        assert(values_model(a@) =~= values_model(b@));
    }
    true
}

#[verifier::loop_isolation(false)]
fn entries_eq(
    a: &Vec<(ReflectValueBox, ReflectValueBox)>,
    b: &Vec<(ReflectValueBox, ReflectValueBox)>,
) -> (r: bool)
    ensures
        r == (entries_model(a@) == entries_model(b@)),
    decreases a,
{
    broadcast use lemma_entries_model;

    if a.len() != b.len() {
        return false;
    }
    let mut i: usize = 0;
    while i < a.len()
        invariant
            i <= a.len(),
            forall|j: int|
                0 <= j < i ==> entry_model(#[trigger] a@[j]) == entry_model(b@[j]),
        decreases a.len() - i,
    {
        if !a[i].0.value_eq(&b[i].0) || !a[i].1.value_eq(&b[i].1) {
            proof {
                assert(entries_model(a@)[i as int] != entries_model(b@)[i as int]);
            }
            return false;
        }
        i += 1;
    }
    proof {
        assert forall|j: int|
            0 <= j < a@.len() implies entries_model(a@)[j] == entries_model(b@)[j] by {
            assert(entry_model(a@[j]) == entry_model(b@[j]));
        }
        assert(entries_model(a@) =~= entries_model(b@));
    }
    true
}

impl DynamicMessage {
    /// A copy whose model equals this message's.
    pub fn deep_clone(&self) -> (r: DynamicMessage)
        ensures
            r@ == self@,
        decreases self,
    {
        let descriptor = self.descriptor.deep_clone();
        let mut fields: Vec<FieldState> = Vec::new();
        let mut i: usize = 0;
        while i < self.fields.len()
            invariant
                i <= self.fields.len(),
                fields@.len() == i as int,
                forall|j: int|
                    0 <= j < i ==> state_model(#[trigger] fields@[j]) == state_model(
                        self.fields@[j],
                    ),
            decreases self.fields.len() - i,
        {
            let s = self.fields[i].deep_clone();
            fields.push(s);
            i += 1;
        }
        proof {
            broadcast use lemma_states_model;

            assert forall|j: int|
                0 <= j < self.fields@.len() implies states_model(fields@)[j] == states_model(
                self.fields@,
            )[j] by {
                assert(state_model(fields@[j]) == state_model(self.fields@[j]));
            }
            assert(states_model(fields@) =~= states_model(self.fields@));
        }
        DynamicMessage { descriptor, fields }
    }
}

} // verus!
