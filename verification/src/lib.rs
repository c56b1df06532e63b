//! Runtime reflection over schema-described messages.
//!
//! A `MessageDescriptor` catalogs the fields of one message schema; a
//! `DynamicMessage` holds the field values of one instance of such a schema.
//! `FieldDescriptor` dispatches generic reads and writes — singular values,
//! repeated sequences and key/value maps — over a tagged value union
//! (`ReflectValueBox`) whose active tag always matches the field's declared
//! `RuntimeValueType`.

pub mod descriptor;
pub mod exercise;
pub mod laws;
pub mod mapfield;
pub mod message;
pub mod model;
pub mod render;
pub mod repeated;
pub mod types;
pub mod valueref;
