//! The error taxonomy of the engine.
use vstd::prelude::*;
use vstd::string::*;

use crate::text::cat;

verus! {

/// Why an operation failed. Each variant carries a human-readable detail.
#[derive(Debug, Clone)]
pub enum AppError {
    /// The storage layer failed to read or write.
    Database(String),
    /// Reading or writing a file failed.
    Io(String),
    /// A CSV document could not be parsed.
    Csv(String),
    /// A lookup, update or delete named a record that does not exist.
    NotFound(String),
    /// An input was rejected before any storage mutation.
    Validation(String),
    /// Any other failure.
    Internal(String),
}

impl AppError {
    /// The text under which the error is shown to a user.
    pub open spec fn text(&self) -> Seq<char> {
        match self {
            AppError::Database(d) => "Database error: "@ + d@,
            AppError::Io(d) => "IO error: "@ + d@,
            AppError::Csv(d) => "CSV error: "@ + d@,
            AppError::NotFound(d) => "Not found: "@ + d@,
            AppError::Validation(d) => "Validation error: "@ + d@,
            AppError::Internal(d) => d@,
        }
    }

    /// Renders the error for a user.
    pub fn message(&self) -> (r: String)
        ensures
            r@ == self.text(),
    {
        match self {
            AppError::Database(d) => cat("Database error: ", d.as_str()),
            AppError::Io(d) => cat("IO error: ", d.as_str()),
            AppError::Csv(d) => cat("CSV error: ", d.as_str()),
            AppError::NotFound(d) => cat("Not found: ", d.as_str()),
            AppError::Validation(d) => cat("Validation error: ", d.as_str()),
            AppError::Internal(d) => d.clone(),
        }
    }
}

} // verus!
