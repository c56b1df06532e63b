//! Constructing and querying schema descriptors.

use vstd::prelude::*;

use crate::model::{wf_descriptor, DescriptorModel, EnumDescModel, FieldModel};
use crate::types::{
    field_model, fields_model, lemma_fields_model, EnumDescriptor, FieldDescriptor, MessageDescriptor,
    RuntimeFieldType, RuntimeValueType,
};

verus! {

broadcast use vstd::seq::group_seq_axioms, vstd::std_specs::vec::group_vec_axioms;

/// The slot a field name occupies in a schema; meaningful under unique names.
pub open spec fn slot_of(d: DescriptorModel, name: Seq<char>) -> int {
    choose|i: int| 0 <= i < d.fields.len() && d.fields[i].name == name
}

/// Under unique field names, a field's name determines its slot.
pub proof fn lemma_slot_of(d: DescriptorModel, j: int)
    requires
        wf_descriptor(d),
        0 <= j < d.fields.len(),
    ensures
        slot_of(d, d.fields[j].name) == j,
{
    let name = d.fields[j].name;
    assert(0 <= j < d.fields.len() && d.fields[j].name == name);
    let i = slot_of(d, name);
    assert(0 <= i < d.fields.len() && d.fields[i].name == name);
    if i < j {
        assert(d.fields[i].name != d.fields[j].name);
    } else if j < i {
        assert(d.fields[j].name != d.fields[i].name);
    }
}

impl EnumDescriptor {
    pub fn new(full_name: String, default_number: i32) -> (r: EnumDescriptor)
        ensures
            r@ == (EnumDescModel { full_name: full_name@, default_number }),
    {
        EnumDescriptor { full_name, default_number }
    }
}

impl FieldDescriptor {
    pub fn new(name: String, ftype: RuntimeFieldType) -> (r: FieldDescriptor)
        ensures
            r@ == (FieldModel { name: name@, ftype: ftype@ }),
    {
        FieldDescriptor { name, ftype }
    }

    /// This descriptor describes one of the schema's declared fields.
    pub open spec fn valid_for(&self, d: DescriptorModel) -> bool {
        exists|i: int| 0 <= i < d.fields.len() && d.fields[i] == self@
    }

    pub fn name(&self) -> (r: &String)
        ensures
            r@ == self@.name,
    {
        &self.name
    }

    /// The field's kind together with its declared value type(s): the single
    /// source of truth for which accessor family is legal on this field.
    pub fn runtime_field_type(&self) -> (r: RuntimeFieldType)
        ensures
            r@ == self@.ftype,
    {
        self.ftype.deep_clone()
    }

    /// The declared value type of a singular field, or the element type of a
    /// repeated field.
    pub fn singular_runtime_type(&self) -> (r: RuntimeValueType)
        requires
            self@.ftype is Singular || self@.ftype is Repeated,
        ensures
            self@.ftype is Singular ==> r@ == self@.ftype->Singular_0,
            self@.ftype is Repeated ==> r@ == self@.ftype->Repeated_0,
    {
        match &self.ftype {
            RuntimeFieldType::Singular(t) => t.deep_clone(),
            RuntimeFieldType::Repeated(t) => t.deep_clone(),
            RuntimeFieldType::Mapping(_, _) => unreached(),
        }
    }

    /// The slot this field occupies in the given schema.
    #[verifier::loop_isolation(false)]
    pub(crate) fn slot(&self, d: &MessageDescriptor) -> (r: usize)
        requires
            wf_descriptor(d@),
            self.valid_for(d@),
        ensures
            0 <= r < d@.fields.len(),
            d@.fields[r as int] == self@,
            r as int == slot_of(d@, self@.name),
    {
        broadcast use lemma_fields_model;

        let ghost j = choose|i: int| 0 <= i < d@.fields.len() && d@.fields[i] == self@;
        let mut i: usize = 0;
        while i < d.fields.len()
            invariant
                wf_descriptor(d@),
                0 <= j < d@.fields.len(),
                d@.fields[j] == self@,
                i <= d@.fields.len(),
                forall|k: int| 0 <= k < i ==> (#[trigger] d@.fields[k]).name != self@.name,
            decreases d.fields.len() - i,
        {
            if self.name == d.fields[i].name {
                proof {
                    lemma_fields_model(d.fields@);
                    assert(d@.fields[i as int] == field_model(d.fields@[i as int]));
                    assert(d@.fields[i as int].name == self@.name);
                    if i as int != j {
                        assert(d@.fields[i as int].name == d@.fields[j].name);
                        assert(false);
                    }
                    lemma_slot_of(d@, j);
                }
                return i;
            }
            proof {
                lemma_fields_model(d.fields@);
                assert(d@.fields[i as int] == field_model(d.fields@[i as int]));
            }
            i += 1;
        }
        proof {
            lemma_fields_model(d.fields@);
            assert(d@.fields[j].name != self@.name);
        }
        unreached()
    }
}

impl MessageDescriptor {
    /// A schema from its full type name and its fields in declaration order.
    pub fn new(full_name: String, fields: Vec<FieldDescriptor>) -> (r: MessageDescriptor)
        ensures
            r@ == (DescriptorModel { full_name: full_name@, fields: fields_model(fields@) }),
    {
        MessageDescriptor { full_name, fields }
    }

    /// The fully qualified schema type name.
    pub fn full_name(&self) -> (r: &String)
        ensures
            r@ == self@.full_name,
    {
        &self.full_name
    }

    pub fn field_count(&self) -> (r: usize)
        ensures
            r == self@.fields.len(),
    {
        proof {
            lemma_fields_model(self.fields@);
        }
        self.fields.len()
    }

    /// The field at one slot of the declaration order.
    pub fn field(&self, i: usize) -> (r: FieldDescriptor)
        requires
            i < self@.fields.len(),
        ensures
            r@ == self@.fields[i as int],
            r.valid_for(self@),
    {
        proof {
            lemma_fields_model(self.fields@);
        }
        let r = self.fields[i].deep_clone();
        proof {
            assert(self@.fields[i as int] == r@);
        }
        r
    }

    /// All fields of the schema, in declaration order; each call yields the
    /// sequence afresh.
    #[verifier::loop_isolation(false)]
    pub fn fields(&self) -> (r: Vec<FieldDescriptor>)
        ensures
            r@.len() == self@.fields.len(),
            forall|i: int|
                0 <= i < r@.len() ==> (#[trigger] r@[i])@ == self@.fields[i] && r@[i].valid_for(
                    self@,
                ),
    {
        broadcast use lemma_fields_model;

        let mut out: Vec<FieldDescriptor> = Vec::new();
        let mut i: usize = 0;
        while i < self.field_count()
            invariant
                i <= self@.fields.len(),
                out@.len() == i as int,
                forall|j: int|
                    0 <= j < i ==> (#[trigger] out@[j])@ == self@.fields[j] && out@[j].valid_for(
                        self@,
                    ),
            decreases self@.fields.len() - i,
        {
            let fd = self.field(i);
            out.push(fd);
            i += 1;
        }
        out
    }

    /// Looks a field up by name: the matching field, or nothing when no field
    /// of the schema has that name.
    #[verifier::loop_isolation(false)]
    pub fn field_by_name(&self, name: &str) -> (r: Option<FieldDescriptor>)
        ensures
            match r {
                Some(fd) => fd@.name == name@ && fd.valid_for(self@),
                None => forall|i: int|
                    0 <= i < self@.fields.len() ==> (#[trigger] self@.fields[i]).name != name@,
            },
    {
        broadcast use lemma_fields_model;

        let owned: String = name.to_owned();
        let mut i: usize = 0;
        while i < self.fields.len()
            invariant
                i <= self.fields.len(),
                owned@ == name@,
                forall|k: int| 0 <= k < i ==> (#[trigger] self@.fields[k]).name != name@,
            decreases self.fields.len() - i,
        {
            if self.fields[i].name == owned {
                let fd = self.fields[i].deep_clone();
                proof {
                    lemma_fields_model(self.fields@);
                    assert(self@.fields[i as int] == field_model(self.fields@[i as int]));
                    assert(self@.fields[i as int] == fd@);
                }
                return Some(fd);
            }
            proof {
                lemma_fields_model(self.fields@);
                assert(self@.fields[i as int] == field_model(self.fields@[i as int]));
            }
            i += 1;
        }
        proof {
            lemma_fields_model(self.fields@);
        }
        None
    }
}

} // verus!
