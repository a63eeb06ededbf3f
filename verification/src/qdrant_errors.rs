//! Backend-specific error helpers.
//!
//! Convenience constructors for the error conditions that a Qdrant-style
//! backend can produce. Each helper returns a structured variant carrying
//! the inputs as plain fields; rendering a display string is left to the
//! unverified shell around the library.

use vstd::prelude::*;

use crate::errors::VectorError;
use crate::version::u64_digits;
use crate::version::u64_to_string;

verus! {

/// Connection to the backend failed.
pub fn connection_failed(message: String) -> (r: VectorError)
    ensures
        r matches VectorError::ConnectionFailed { message: m } && m@ == message@,
{
    VectorError::ConnectionFailed { message }
}

/// The backend's API rejected a request.
pub fn api_error(message: String) -> (r: VectorError)
    ensures
        r matches VectorError::StorageFailed { message: m } && m@ == message@,
{
    VectorError::StorageFailed { message }
}

/// Creating a collection failed for a named reason.
pub fn collection_creation_failed(name: String, reason: String) -> (r: VectorError)
    ensures
        r matches VectorError::Validation { field: f, message: m } && f@ == name@ && m@
            == reason@,
{
    VectorError::Validation { field: name, message: reason }
}

/// A vector's dimension did not match the collection's.
pub fn vector_dimension_mismatch(expected: usize, actual: usize) -> (r: VectorError)
    ensures
        r == (VectorError::InvalidDimension { expected, actual }),
{
    VectorError::InvalidDimension { expected, actual }
}

/// Index optimization failed for a collection.
pub fn index_optimization_failed(collection: String, reason: String) -> (r: VectorError)
    ensures
        r matches VectorError::Validation { field: f, message: m } && f@ == collection@ && m@
            == reason@,
{
    VectorError::Validation { field: collection, message: reason }
}

/// A collection was not ready for operations.
pub fn collection_not_ready(collection: String, status: String) -> (r: VectorError)
    ensures
        r matches VectorError::Validation { field: f, message: m } && f@ == collection@ && m@
            == status@,
{
    VectorError::Validation { field: collection, message: status }
}

/// A batch was larger than the configured maximum; the message carries
/// both numbers.
pub fn batch_size_exceeded(size: usize, max_size: usize) -> (r: VectorError)
    ensures
        r matches VectorError::Validation { field: f, message: m } && f@ == "batch_size"@ && m@
            == "Size "@ + u64_digits(size as nat) + " exceeds maximum "@ + u64_digits(
            max_size as nat,
        ),
{
    let mut message = make_string("Size ");
    let rendered_size = u64_to_string(size as u64);
    message.append(rendered_size.as_str());
    message.append(" exceeds maximum ");
    let rendered_max = u64_to_string(max_size as u64);
    message.append(rendered_max.as_str());
    VectorError::Validation { field: make_string("batch_size"), message }
}

/// A point id could not be converted.
pub fn invalid_point_id(id: String, reason: String) -> (r: VectorError)
    ensures
        r matches VectorError::Validation { field: f, message: m } && f@ == id@ && m@ == reason@,
{
    VectorError::Validation { field: id, message: reason }
}

/// Search parameters failed validation.
pub fn invalid_search_params(reason: String) -> (r: VectorError)
    ensures
        r matches VectorError::Validation { field: f, message: m } && f@ == "search_params"@ && m@
            == reason@,
{
    VectorError::Validation { field: make_string("search_params"), message: reason }
}

/// An owned copy of a string slice.
pub fn make_string(s: &str) -> (r: String)
    ensures
        r@ == s@,
{
    String::from_str(s)
}

} // verus!
