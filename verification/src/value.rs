//! In-memory structured values, and what it means for a value to have the
//! shape a descriptor expects.

use vstd::prelude::*;
use crate::descriptor::{FieldDescriptor, FieldType, TypeDescriptor, TypeKind};

verus! {

/// One in-memory value, shaped by the descriptor it is written against.
#[derive(Debug, PartialEq, Eq)]
pub enum Value {
    /// An unsigned scalar.
    Uint(u64),
    /// A variable-length collection of unsigned scalars.
    List(Vec<u64>),
    /// A struct: its field values in declaration order.
    Struct(Vec<Value>),
    /// A tagged-union value: the active variant's position in the
    /// descriptor's variant list, and the variant's field values in
    /// declaration order. The active variant is fixed by construction; the
    /// write engine never infers it from data.
    Variant(usize, Vec<Value>),
}

/// Whether a value has the shape one field expects. Scalar magnitudes and
/// collection lengths are not part of the shape: a value too wide for its
/// declared width is a codec error reported by the write call itself.
pub open spec fn field_conforms(f: FieldDescriptor, v: Value) -> bool
    decreases f, 1int,
{
    match f.ty {
        FieldType::Scalar { .. } => v is Uint,
        FieldType::List { .. } => v is List,
        FieldType::Nested(d) => conforms(*d, v),
    }
}

/// Whether a list of values matches a field list position by position.
pub open spec fn fields_conform(fields: Seq<FieldDescriptor>, vals: Seq<Value>) -> bool
    decreases fields, 2int,
{
    &&& vals.len() == fields.len()
    &&& forall|i: int| 0 <= i < fields.len() ==> field_conforms(#[trigger] fields[i], vals[i])
}

/// Whether a value has the shape a descriptor expects: a struct value with
/// one value per field, or an active variant that exists in the descriptor
/// with values matching that variant's fields.
pub open spec fn conforms(d: TypeDescriptor, v: Value) -> bool
    decreases d, 3int,
{
    match d.kind {
        TypeKind::Struct(fields) => {
            &&& v is Struct
            &&& fields_conform(fields@, v->Struct_0@)
        },
        TypeKind::Enum { variants, .. } => {
            &&& v is Variant
            &&& (v->Variant_0 as int) < variants@.len()
            &&& fields_conform(variants@[v->Variant_0 as int].fields@, v->Variant_1@)
        },
    }
}

} // verus!
