//! Typed, inspectable errors.
//!
//! Every public operation returns either a success value or one of these
//! variants; the variant identifies which gate or collaborator failed
//! (validation, missing dependency, unsupported operation, backend failure,
//! contract mismatch, absence), so callers can distinguish "rejected before
//! any mutation" from "partially mutated". No operation panics on a normal
//! failure condition.

use vstd::prelude::*;

use crate::version::Version;

verus! {

/// The error taxonomy of the library.
#[derive(Debug)]
pub enum VectorError {
    /// The backend could not be reached.
    ConnectionFailed { message: String },
    /// The backend rejected or failed a storage call.
    StorageFailed { message: String },
    /// A vector was absent where one was required.
    VectorNotFound { message: String },
    /// A collection was absent where one was required.
    CollectionNotFound { name: String },
    /// A dimension did not match what the collection was created with.
    InvalidDimension { expected: usize, actual: usize },
    /// An input failed validation; `field` names the offending input.
    Validation { field: String, message: String },
    /// A configuration value was malformed.
    Configuration { message: String },
    /// A named resource was absent.
    NotFound { resource: String, id: String },
    /// A declared but intentionally unsupported operation was requested.
    NotImplemented { feature: String },
    /// A migration dependency was not present in the applied history.
    MissingDependency { version: Version },
    /// A contract interaction's outcome class differed from the expected one.
    ContractMismatch { message: String },
}

impl VectorError {
    /// Backend connection failure.
    pub fn connection_failed(message: String) -> (r: VectorError)
        ensures
            r matches VectorError::ConnectionFailed { message: m } && m@ == message@,
    {
        VectorError::ConnectionFailed { message }
    }

    /// Backend storage failure.
    pub fn storage_failed(message: String) -> (r: VectorError)
        ensures
            r matches VectorError::StorageFailed { message: m } && m@ == message@,
    {
        VectorError::StorageFailed { message }
    }

    /// A vector was not found.
    pub fn vector_not_found(message: String) -> (r: VectorError)
        ensures
            r matches VectorError::VectorNotFound { message: m } && m@ == message@,
    {
        VectorError::VectorNotFound { message }
    }

    /// A collection was not found.
    pub fn collection_not_found(name: String) -> (r: VectorError)
        ensures
            r matches VectorError::CollectionNotFound { name: n } && n@ == name@,
    {
        VectorError::CollectionNotFound { name }
    }

    /// An input failed validation.
    pub fn validation(field: String, message: String) -> (r: VectorError)
        ensures
            r matches VectorError::Validation { field: f, message: m } && f@ == field@ && m@
                == message@,
    {
        VectorError::Validation { field, message }
    }

    /// True exactly for the `Validation` variant.
    pub fn is_validation(&self) -> (r: bool)
        ensures
            r == (self matches VectorError::Validation { .. }),
    {
        match self {
            VectorError::Validation { .. } => true,
            _ => false,
        }
    }

    /// True exactly for the `NotFound` variant.
    pub fn is_not_found(&self) -> (r: bool)
        ensures
            r == (self matches VectorError::NotFound { .. }),
    {
        match self {
            VectorError::NotFound { .. } => true,
            _ => false,
        }
    }

    /// True exactly for the `MissingDependency` variant.
    pub fn is_missing_dependency(&self) -> (r: bool)
        ensures
            r == (self matches VectorError::MissingDependency { .. }),
    {
        match self {
            VectorError::MissingDependency { .. } => true,
            _ => false,
        }
    }

    /// True exactly for the `NotImplemented` variant.
    pub fn is_not_implemented(&self) -> (r: bool)
        ensures
            r == (self matches VectorError::NotImplemented { .. }),
    {
        match self {
            VectorError::NotImplemented { .. } => true,
            _ => false,
        }
    }
}

} // verus!
