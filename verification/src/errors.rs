//! The failures that the pipeline reports.

use vstd::prelude::*;

verus! {

/// The kind of a failure of an ingestion run or of a read.
#[derive(Debug, Clone, Copy, PartialEq, Eq, Structural)]
pub enum PipelineError {
    /// The upstream source could not be reached, answered with an error or
    /// with a malformed payload, or delivered no node at all.
    FetchError,
    /// The store was unavailable or rejected a write.
    StoreWriteError,
    /// The store was unavailable or its index answered with a malformed response.
    StoreReadError,
    /// A value could not be written as JSON at the boundary.
    SerializationError,
}

impl PipelineError {
    /// A short description of the failure.
    pub fn message(&self) -> (text: &'static str)
        ensures
            text@ == match *self {
                PipelineError::FetchError => "Failed to fetch node rankings"@,
                PipelineError::StoreWriteError => "Failed to write to the ranking store"@,
                PipelineError::StoreReadError => "Failed to read from the ranking store"@,
                PipelineError::SerializationError => "Failed to serialize the response"@,
            },
    {
        match self {
            PipelineError::FetchError => "Failed to fetch node rankings",
            PipelineError::StoreWriteError => "Failed to write to the ranking store",
            PipelineError::StoreReadError => "Failed to read from the ranking store",
            PipelineError::SerializationError => "Failed to serialize the response",
        }
    }
}

} // verus!
