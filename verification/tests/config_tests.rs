//! Configuration defaults, identity and validation.

use tyl_qdrant_adapter::QdrantConfig;

#[test]
fn test_qdrant_config_creation() {
    let config = QdrantConfig::default();
    assert_eq!(config.url, "http://localhost:6333");
    assert_eq!(config.timeout_seconds, 30);
    assert_eq!(config.max_batch_size, 100);
    assert!(config.enable_compression);
    assert!(config.validate().is_ok());
}

#[test]
fn test_qdrant_config_validation() {
    let mut config = QdrantConfig::default();
    assert!(config.validate().is_ok());

    // Test empty URL
    config.url = String::new();
    assert!(config.validate().is_err());

    // Test zero timeout
    config.url = "http://localhost:6333".to_string();
    config.timeout_seconds = 0;
    assert!(config.validate().is_err());

    // Test zero batch size
    config.timeout_seconds = 30;
    config.max_batch_size = 0;
    assert!(config.validate().is_err());
}

#[test]
fn test_config_plugin_trait() {
    let config = QdrantConfig::default();
    assert_eq!(config.name(), "qdrant");
    assert_eq!(config.env_prefix(), "TYL_QDRANT");
}

#[test]
fn test_config_validation_names_offending_field() {
    let mut config = QdrantConfig::default();
    config.default_shard_number = 0;
    match config.validate() {
        Err(tyl_qdrant_adapter::VectorError::Validation { field, .. }) => {
            assert_eq!(field, "default_shard_number");
        }
        other => panic!("expected a validation error, got {:?}", other),
    }
}
