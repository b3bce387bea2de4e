use vstd::prelude::*;

verus! {

/// Why a write or a read pass stopped. Each error names the position of the
/// field, in the record's declared order, at which it happened.
#[derive(Clone, Copy, Debug, PartialEq, Eq, Structural)]
pub enum CodecError {
    /// The value codec could not encode the field's value.
    SerializationFailure { field: usize },
    /// The storage refused an operation on the field's file (the caller keeps
    /// the underlying cause).
    IoFailure { field: usize },
    /// A required field has no file, so the record cannot be rebuilt.
    MissingRequiredField { field: usize },
    /// The field's file holds something that does not decode to the field's type.
    MalformedField { field: usize },
}

/// Why a list of fields is not a valid record shape.
#[derive(Clone, Copy, Debug, PartialEq, Eq, Structural)]
pub enum SchemaError {
    /// The field at this position has an empty name.
    EmptyName { field: usize },
    /// The field at this position has the name of an earlier field.
    DuplicateName { field: usize },
}

impl SchemaError {
    pub open spec fn position(self) -> usize {
        match self {
            SchemaError::EmptyName { field } => field,
            SchemaError::DuplicateName { field } => field,
        }
    }
}

} // verus!
