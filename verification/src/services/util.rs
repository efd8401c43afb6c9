//! Small helpers of the service layer: the response wrapper for created
//! identifiers, and validated user input.

use vstd::prelude::*;

verus! {

/// The body of a response that reports one created identifier.
#[derive(Clone, Copy, Debug)]
pub struct IdResponse<T> {
    pub id: T,
}

impl<T> IdResponse<T> {
    /// Wraps an identifier.
    pub fn from_id(id: T) -> (r: IdResponse<T>)
        ensures
            r.id == id,
    {
        IdResponse { id }
    }
}

/// Errors of user-input validation.
#[derive(Clone, Copy, Debug, PartialEq, Eq, Structural)]
pub enum ValidationError {
    /// The input failed its validation rule.
    Invalid,
}

/// Input from a user that knows how to validate itself.
pub trait UserInput: Sized {
    /// Whether the input is valid, as a specification.
    spec fn spec_valid(&self) -> bool;

    /// Validates the input.
    fn validate(&self) -> (r: Result<(), ValidationError>)
        ensures
            r is Ok <==> self.spec_valid(),
    ;

    /// Validates the input and, on success, wraps it as validated.
    fn validated(self) -> (r: Result<Validated<Self>, ValidationError>)
        ensures
            r is Ok <==> self.spec_valid(),
            r matches Ok(v) ==> v.user_input == self && v.user_input.spec_valid(),
    {
        match self.validate() {
            Ok(_) => Ok(Validated { user_input: self }),
            Err(e) => Err(e),
        }
    }
}

/// Input that passed its validation: holding a value of this type is the
/// proof that `validate` accepted it.
#[derive(Clone, Copy, Debug)]
pub struct Validated<T: UserInput> {
    pub user_input: T,
}

impl<T: UserInput> Validated<T> {
    /// The validated input.
    pub fn user_input(&self) -> (r: &T)
        ensures
            r == &self.user_input,
    {
        &self.user_input
    }
}

impl UserInput for crate::processing::raster_vector_join::RasterVectorJoinParams {
    /// The join takes one output column name per raster input: between one
    /// and eight names.
    open spec fn spec_valid(&self) -> bool {
        1 <= self.names@.len() <= 8
    }

    fn validate(&self) -> (r: Result<(), ValidationError>) {
        if 1 <= self.names.len() && self.names.len() <= 8 {
            Ok(())
        } else {
            Err(ValidationError::Invalid)
        }
    }
}

} // verus!
