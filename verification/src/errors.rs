//! Request-level errors: a field either fully resolves or fails with a
//! message, distinguishing "not found" from a store failure whose native
//! message passes through verbatim.

use vstd::prelude::*;

verus! {

/// The failure payload handed to API callers: a message string beside null
/// data.
pub struct FieldError {
    pub message: String,
}

/// Zero results for a single-item operation over the named entity.
pub struct NotFoundError {
    pub model: String,
}

impl NotFoundError {
    pub fn new(model: String) -> (e: Self)
        ensures
            e.model == model,
    {
        Self { model }
    }

    /// The field-level failure for this error: "<model> not found".
    pub fn into_field_error(self) -> (r: FieldError)
        ensures
            r.message@ == self.model@ + " not found"@,
    {
        FieldError { message: self.model.concat(" not found") }
    }
}

/// A transport or execution failure of the backing store; the store's own
/// message is kept verbatim.
pub struct DatabaseError {
    pub message: String,
}

impl DatabaseError {
    pub fn new(message: String) -> (e: Self)
        ensures
            e.message == message,
    {
        Self { message }
    }

    /// The field-level failure for this error: the store's message untouched.
    pub fn into_field_error(self) -> (r: FieldError)
        ensures
            r.message == self.message,
    {
        FieldError { message: self.message }
    }
}

} // verus!
