use vstd::prelude::*;

verus! {

/// The application-level error family: failures of request extraction,
/// raised before any handler logic runs.
#[derive(Debug)]
pub enum AppError {
    InternalServerError,
    BodyParsingError(String),
}

/// Reduces any error to `AppError::InternalServerError`, dropping its detail.
pub fn internal_error<E>(_err: E) -> (r: AppError)
    ensures
        r is InternalServerError,
{
    AppError::InternalServerError
}

} // verus!
