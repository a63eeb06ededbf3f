//! The in-memory adapter: collection lifecycle, vector operations,
//! filtered search, health and error handling.

use tyl_qdrant_adapter::json::fields_get;
use tyl_qdrant_adapter::json::json_value_eq;
use tyl_qdrant_adapter::CollectionConfig;
use tyl_qdrant_adapter::DistanceMetric;
use tyl_qdrant_adapter::JsonValue;
use tyl_qdrant_adapter::MockQdrantAdapter;
use tyl_qdrant_adapter::QdrantConfig;
use tyl_qdrant_adapter::SearchParams;
use tyl_qdrant_adapter::Vector;
use tyl_qdrant_adapter::VectorCollectionManager;
use tyl_qdrant_adapter::VectorDatabase;
use tyl_qdrant_adapter::VectorStore;
use tyl_qdrant_adapter::VectorStoreHealth;

fn bits(values: Vec<f32>) -> Vec<u32> {
    values.into_iter().map(f32::to_bits).collect()
}

fn repeated(value: f32, n: usize) -> Vec<u32> {
    bits(vec![value; n])
}

#[test]
fn test_mock_adapter_integration() {
    let mut adapter = MockQdrantAdapter::new();

    // Test collection creation
    let collection_config =
        CollectionConfig::new("test_collection".to_string(), 128, DistanceMetric::Cosine)
            .expect("Failed to create collection config");

    let result = adapter.create_collection(collection_config);
    assert!(result.is_ok());

    // Test vector storage
    let vector = Vector::new("test_id".to_string(), repeated(0.1, 128));
    let result = adapter.store_vector("test_collection", vector);
    assert!(result.is_ok());

    // Test vector retrieval
    let result = adapter.get_vector("test_collection", "test_id");
    assert!(result.is_ok());
    assert!(result.unwrap().is_some());
}

#[test]
fn test_vector_operations_integration() {
    let mut adapter = MockQdrantAdapter::new();

    // Create collection
    let collection_config =
        CollectionConfig::new("vectors_test".to_string(), 256, DistanceMetric::Euclidean)
            .expect("Failed to create collection config");

    let result = adapter.create_collection(collection_config);
    assert!(result.is_ok());

    // Store multiple vectors
    let vectors = vec![
        Vector::new("vec1".to_string(), repeated(0.1, 256)),
        Vector::new("vec2".to_string(), repeated(0.2, 256)),
        Vector::new("vec3".to_string(), repeated(0.3, 256)),
    ];

    let results = adapter.store_vectors_batch("vectors_test", vectors);
    assert!(results.is_ok());
    let batch_results = results.unwrap();
    assert_eq!(batch_results.len(), 3);
    assert!(batch_results.iter().all(|r| r.is_ok()));

    // Test search
    let query_vector = repeated(0.15, 256);
    let search_params = SearchParams::with_limit(2);

    let search_results = adapter.search_similar("vectors_test", query_vector, search_params);
    assert!(search_results.is_ok());
    let results = search_results.unwrap();
    assert!(!results.is_empty());
    assert!(results.len() <= 2);
}

#[test]
fn test_health_check_integration() {
    let adapter = MockQdrantAdapter::new();

    // Test health check
    let is_healthy = adapter.is_healthy();
    assert!(is_healthy.is_ok());
    assert!(is_healthy.unwrap());

    // Test detailed health check
    let health_data = adapter.health_check();
    assert!(health_data.is_ok());
    let data = health_data.unwrap();
    let status = fields_get(&data, "status");
    assert!(status.is_some());
    assert!(json_value_eq(status.unwrap(), &JsonValue::Str("healthy".to_string())));
}

#[test]
fn test_collection_management_integration() {
    let mut adapter = MockQdrantAdapter::new();

    // Create multiple collections
    let configs = vec![
        CollectionConfig::new("collection1".to_string(), 128, DistanceMetric::Cosine).unwrap(),
        CollectionConfig::new("collection2".to_string(), 256, DistanceMetric::Euclidean).unwrap(),
        CollectionConfig::new("collection3".to_string(), 512, DistanceMetric::DotProduct).unwrap(),
    ];

    for config in configs {
        let result = adapter.create_collection(config);
        assert!(result.is_ok());
    }

    // List collections
    let collections = adapter.list_collections();
    assert!(collections.is_ok());
    let collection_list = collections.unwrap();
    assert_eq!(collection_list.len(), 3);

    // Get collection info
    let info = adapter.get_collection_info("collection1");
    assert!(info.is_ok());
    assert!(info.unwrap().is_some());

    // Get collection stats
    let stats = adapter.get_collection_stats("collection1");
    assert!(stats.is_ok());
    let stats_data = stats.unwrap();
    assert!(fields_get(&stats_data, "vectors_count").is_some());

    // Delete collection
    let result = adapter.delete_collection("collection1");
    assert!(result.is_ok());

    // Verify deletion
    let info = adapter.get_collection_info("collection1");
    assert!(info.is_ok());
    assert!(info.unwrap().is_none());
}

#[test]
fn test_vector_database_trait_integration() {
    // Test mock database connection
    let config = QdrantConfig::default();
    let adapter = MockQdrantAdapter::connect(config);
    assert!(adapter.is_ok());

    let adapter = adapter.unwrap();

    // Test connection info
    let info = adapter.connection_info();
    assert!(info.contains("Mock"));

    // Test feature support
    assert!(adapter.supports_feature("collections"));
    assert!(adapter.supports_feature("health_check"));
    assert!(adapter.supports_feature("batch_operations"));
    assert!(!adapter.supports_feature("non_existent_feature"));

    // Test close connection
    let mut adapter = adapter;
    let result = adapter.close();
    assert!(result.is_ok());
}

#[test]
fn test_error_handling_integration() {
    let mut adapter = MockQdrantAdapter::new();

    // Test getting non-existent vector
    let result = adapter.get_vector("non_existent_collection", "non_existent_id");
    assert!(result.is_err());

    // Test searching in non-existent collection
    let search_params = SearchParams::with_limit(10);
    let result = adapter.search_similar("non_existent_collection", repeated(0.1, 128), search_params);
    assert!(result.is_err());

    // Test deleting from non-existent collection
    let result = adapter.delete_vector("non_existent_collection", "some_id");
    assert!(result.is_err());

    // Test duplicate collection creation
    let config = CollectionConfig::new("test_dup".to_string(), 128, DistanceMetric::Cosine).unwrap();
    let result1 = adapter.create_collection(config.clone_config());
    assert!(result1.is_ok());

    let result2 = adapter.create_collection(config);
    assert!(result2.is_err());
}

#[test]
fn test_backward_compatibility_simple_filters() {
    let mut adapter = MockQdrantAdapter::new();

    // Create collection
    let config = CollectionConfig::new("compat_test".to_string(), 2, DistanceMetric::Cosine).unwrap();
    adapter.create_collection(config).unwrap();

    // Store vector with simple metadata
    let mut vector = Vector::new("simple".to_string(), bits(vec![1.0, 0.0]));
    vector.add_metadata("status".to_string(), JsonValue::Str("active".to_string()));
    vector.add_metadata("count".to_string(), JsonValue::Int(42));
    adapter.store_vector("compat_test", vector).unwrap();

    // Test traditional simple filters still work
    let search_params = SearchParams::with_limit(10)
        .with_filter("status".to_string(), JsonValue::Str("active".to_string()))
        .with_filter("count".to_string(), JsonValue::Int(42));

    let results = adapter.search_similar("compat_test", bits(vec![0.9, 0.1]), search_params);

    // Should work with mock adapter
    assert!(results.is_ok());
    assert_eq!(results.unwrap().len(), 1);
}

#[test]
fn test_simple_filter_returns_only_matching_records() {
    let mut adapter = MockQdrantAdapter::new();
    let config = CollectionConfig::new("part_test".to_string(), 2, DistanceMetric::Cosine).unwrap();
    adapter.create_collection(config).unwrap();

    let mut matching = Vector::new("yes".to_string(), bits(vec![1.0, 0.0]));
    matching.add_metadata("kind".to_string(), JsonValue::Str("a".to_string()));
    adapter.store_vector("part_test", matching).unwrap();

    let mut other = Vector::new("no".to_string(), bits(vec![0.0, 1.0]));
    other.add_metadata("kind".to_string(), JsonValue::Str("b".to_string()));
    adapter.store_vector("part_test", other).unwrap();

    let params = SearchParams::with_limit(10)
        .with_filter("kind".to_string(), JsonValue::Str("a".to_string()));
    let results = adapter.search_similar("part_test", bits(vec![1.0, 0.0]), params).unwrap();
    assert_eq!(results.len(), 1);
    assert_eq!(results[0].vector.id, "yes");
}

#[test]
fn test_search_without_filters_returns_every_record_once() {
    let mut adapter = MockQdrantAdapter::new();
    let config = CollectionConfig::new("all_test".to_string(), 2, DistanceMetric::Cosine).unwrap();
    adapter.create_collection(config).unwrap();

    for id in ["a", "b", "c"] {
        let v = Vector::new(id.to_string(), bits(vec![1.0, 0.0]));
        adapter.store_vector("all_test", v).unwrap();
    }

    let results = adapter
        .search_similar("all_test", bits(vec![1.0, 0.0]), SearchParams::with_limit(10))
        .unwrap();
    assert_eq!(results.len(), 3);
    let mut ids: Vec<String> = results.iter().map(|r| r.vector.id.clone()).collect();
    ids.sort();
    assert_eq!(ids, vec!["a", "b", "c"]);
}

#[test]
fn test_store_vector_overwrites_same_id() {
    let mut adapter = MockQdrantAdapter::new();
    let config = CollectionConfig::new("over_test".to_string(), 1, DistanceMetric::Cosine).unwrap();
    adapter.create_collection(config).unwrap();

    let mut first = Vector::new("x".to_string(), bits(vec![1.0]));
    first.add_metadata("rev".to_string(), JsonValue::Int(1));
    adapter.store_vector("over_test", first).unwrap();

    let mut second = Vector::new("x".to_string(), bits(vec![1.0]));
    second.add_metadata("rev".to_string(), JsonValue::Int(2));
    adapter.store_vector("over_test", second).unwrap();

    let got = adapter.get_vector("over_test", "x").unwrap().unwrap();
    let rev = fields_get(&got.metadata, "rev").unwrap();
    assert!(json_value_eq(rev, &JsonValue::Int(2)));

    let all = adapter
        .search_similar("over_test", bits(vec![1.0]), SearchParams::with_limit(10))
        .unwrap();
    assert_eq!(all.len(), 1);
}

#[test]
fn test_delete_vector_removes_record() {
    let mut adapter = MockQdrantAdapter::new();
    let config = CollectionConfig::new("del_test".to_string(), 1, DistanceMetric::Cosine).unwrap();
    adapter.create_collection(config).unwrap();

    adapter
        .store_vector("del_test", Vector::new("x".to_string(), bits(vec![1.0])))
        .unwrap();
    adapter.delete_vector("del_test", "x").unwrap();
    assert!(adapter.get_vector("del_test", "x").unwrap().is_none());
}
