use rag_embeddings::config::{ConfigError, PipelineConfig};

fn make(
    vector_size: usize,
    max: Option<usize>,
    start: Option<u64>,
) -> Result<PipelineConfig, ConfigError> {
    PipelineConfig::new("model".to_string(), "docs".to_string(), vector_size, max, start)
}

#[test]
fn config_keeps_its_values() {
    let config = make(384, Some(500), Some(100)).ok().unwrap();
    assert_eq!(config.model_name(), "model");
    assert_eq!(config.collection_name(), "docs");
    assert_eq!(config.vector_size(), 384);
    assert_eq!(config.max_context_length(), Some(500));
    assert_eq!(config.start_vector_id(), 100);
}

#[test]
fn start_identifier_defaults_to_zero() {
    let config = make(4, None, None).ok().unwrap();
    assert_eq!(config.start_vector_id(), 0);
    assert_eq!(config.max_context_length(), None);
}

#[test]
fn zero_vector_size_is_refused() {
    assert_eq!(make(0, None, None).err(), Some(ConfigError::ZeroVectorSize));
    assert_eq!(make(0, Some(0), Some(5)).err(), Some(ConfigError::ZeroVectorSize));
}

#[test]
fn zero_context_length_is_refused() {
    assert_eq!(make(1, Some(0), None).err(), Some(ConfigError::ZeroContextLength));
}

#[test]
fn smallest_values_are_taken() {
    let config = make(1, Some(1), Some(0)).ok().unwrap();
    assert_eq!(config.vector_size(), 1);
    assert_eq!(config.max_context_length(), Some(1));
}

#[test]
fn vector_size_beyond_the_output_buffer_is_refused() {
    assert_eq!(make(usize::MAX, None, None).err(), Some(ConfigError::VectorSizeTooLarge));
    assert_eq!(make(usize::MAX / 15, Some(0), None).err(), Some(ConfigError::VectorSizeTooLarge));
    let largest = (usize::MAX - 128) / 15;
    assert_eq!(make(largest, None, None).ok().unwrap().vector_size(), largest);
    assert_eq!(make(largest + 1, None, None).err(), Some(ConfigError::VectorSizeTooLarge));
}
