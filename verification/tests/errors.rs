use node_rankings::errors::PipelineError;

#[test]
fn each_failure_has_its_message() {
    assert_eq!(PipelineError::FetchError.message(), "Failed to fetch node rankings");
    assert_eq!(PipelineError::StoreWriteError.message(), "Failed to write to the ranking store");
    assert_eq!(PipelineError::StoreReadError.message(), "Failed to read from the ranking store");
    assert_eq!(PipelineError::SerializationError.message(), "Failed to serialize the response");
}

#[test]
fn failures_compare_by_kind() {
    assert_eq!(PipelineError::FetchError, PipelineError::FetchError);
    assert_ne!(PipelineError::StoreWriteError, PipelineError::StoreReadError);
}
