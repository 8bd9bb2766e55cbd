//! The service-layer error shape: field-level validation errors plus the
//! handful of non-validation failures the services report.

use vstd::prelude::*;
use vstd::string::*;

use crate::text::{i64_to_string, int_decimal};

verus! {

/// One field-level validation failure: which (camelCase, wire-named) field
/// and a human-readable message.
#[derive(Debug)]
pub struct FieldError {
    pub field: String,
    pub message: String,
}

impl FieldError {
    /// The pair `(field, message)` as character sequences.
    pub open spec fn view_pair(&self) -> (Seq<char>, Seq<char>) {
        (self.field@, self.message@)
    }
}

/// Builds a [`FieldError`] from a field name and a message.
pub fn field_error(field: &str, message: String) -> (r: FieldError)
    ensures
        r.field@ == field@,
        r.message@ == message@,
{
    FieldError { field: field.to_owned(), message }
}

/// The failures a service call can report.
#[derive(Debug)]
pub enum ServiceError {
    /// Every field-level violation of one input, in the order found.
    Validation { field_errors: Vec<FieldError> },
    /// A referenced row does not exist.
    NotFound { resource: String, id: String },
    /// The caller is authenticated but not allowed.
    Forbidden,
    /// The caller is not authenticated.
    Unauthorized,
    /// Storage failed.
    Storage(String),
    /// Any other failure, with a displayable message.
    Other(String),
}

/// The `(field, message)` views of a list of field errors.
pub open spec fn error_views(errors: Seq<FieldError>) -> Seq<(Seq<char>, Seq<char>)> {
    errors.map_values(|e: FieldError| e.view_pair())
}

/// Appends one field error.
pub fn push_error(errors: &mut Vec<FieldError>, field: String, message: String)
    ensures
        error_views(final(errors)@) == error_views(old(errors)@).push((field@, message@)),
{
    let ghost before = errors@;
    errors.push(FieldError { field, message });
    proof {
        assert(error_views(errors@) =~= error_views(before).push((field@, message@)));
    }
}

/// Appends every error of `more`, in order.
pub fn append_errors(errors: &mut Vec<FieldError>, more: Vec<FieldError>)
    ensures
        error_views(final(errors)@) == error_views(old(errors)@) + error_views(more@),
{
    let ghost before = errors@;
    let ghost extra = more@;
    let mut more = more;
    errors.append(&mut more);
    proof {
        assert(errors@ == before + extra);
        assert(error_views(errors@) =~= error_views(before) + error_views(extra));
    }
}

/// The "no such row" failure for `resource` and a numeric id.
pub fn not_found(resource: &str, id: i64) -> (r: ServiceError)
    ensures
        r matches ServiceError::NotFound { resource: res, id: ident } && res@ == resource@
            && ident@ == int_decimal(id as int),
{
    ServiceError::NotFound { resource: resource.to_owned(), id: i64_to_string(id) }
}

} // verus!
