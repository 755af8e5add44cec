use vstd::prelude::*;

verus! {

/// The repository's whole error taxonomy: every storage-layer failure is
/// reduced to one of these two outcomes before a handler sees it.
#[derive(Clone, Copy, Debug, PartialEq, Eq, Structural)]
pub enum InfraError {
    InternalServerError,
    NotFound,
}

impl InfraError {
    /// The short human-readable description of the error.
    pub fn message(&self) -> (r: String)
        ensures
            self is NotFound ==> r@ == "Not found"@,
            self is InternalServerError ==> r@ == "Internal server error"@,
    {
        match self {
            InfraError::NotFound => "Not found".to_owned(),
            InfraError::InternalServerError => "Internal server error".to_owned(),
        }
    }
}

/// A storage-layer failure that reduces to an `InfraError`.
pub trait Error {
    /// The `InfraError` this failure stands for.
    spec fn infra_spec(&self) -> InfraError;

    fn as_infra_error(&self) -> (r: InfraError)
        ensures
            r == self.infra_spec(),
    ;
}

/// Reduces any storage-layer failure to the two-valued `InfraError` taxonomy.
pub fn adapt_infra_error<T: Error>(error: T) -> (r: InfraError)
    ensures
        r == error.infra_spec(),
{
    error.as_infra_error()
}

/// What a single-row query reported: either the row was missing, or the
/// statement failed in some other way.
#[derive(Clone, Copy, Debug, PartialEq, Eq, Structural)]
pub enum QueryError {
    NotFound,
    Other,
}

impl Error for QueryError {
    open spec fn infra_spec(&self) -> InfraError {
        match self {
            QueryError::NotFound => InfraError::NotFound,
            QueryError::Other => InfraError::InternalServerError,
        }
    }

    fn as_infra_error(&self) -> (r: InfraError) {
        match self {
            QueryError::NotFound => InfraError::NotFound,
            QueryError::Other => InfraError::InternalServerError,
        }
    }
}

/// A failure to check a connection out of the pool.
#[derive(Clone, Copy, Debug, PartialEq, Eq, Structural)]
pub struct PoolError;

impl Error for PoolError {
    open spec fn infra_spec(&self) -> InfraError {
        InfraError::InternalServerError
    }

    fn as_infra_error(&self) -> (r: InfraError) {
        InfraError::InternalServerError
    }
}

/// A failure of the unit of work run against a checked-out connection.
#[derive(Clone, Copy, Debug, PartialEq, Eq, Structural)]
pub struct InteractError;

impl Error for InteractError {
    open spec fn infra_spec(&self) -> InfraError {
        InfraError::InternalServerError
    }

    fn as_infra_error(&self) -> (r: InfraError) {
        InfraError::InternalServerError
    }
}

} // verus!
