use vstd::prelude::*;

verus! {

/// Represents possible errors that can occur during inventory operations.
#[derive(Debug, PartialEq)]
pub enum InventoryError {
    /// Returned when the requested item or the requested exact slot does not
    /// exist in the repository.
    NotFound,

    /// Returned when the requested quantity exceeds the available units.
    Insufficient,

    /// A generic internal error with an attached message, reserved for values
    /// outside the representable domain (for example a time at or past the
    /// configured clock bound, or an availability count that would overflow).
    Internal(String),

    /// Returned when the provided time range is invalid,
    /// such as when the start time is greater than or equal to the end time.
    InvalidTimeRange,
}

impl InventoryError {
    /// A human-readable description of the error.
    pub fn message(&self) -> (r: String)
        ensures
            self is Internal ==> r@ == self->Internal_0@,
    {
        match self {
            InventoryError::NotFound => "Item not found".to_string(),
            InventoryError::Insufficient => "Insufficient availability".to_string(),
            InventoryError::Internal(msg) => msg.clone(),
            InventoryError::InvalidTimeRange => {
                "Invalid time range: start time must be before end time".to_string()
            },
        }
    }
}

} // verus!
