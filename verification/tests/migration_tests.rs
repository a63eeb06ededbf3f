//! The migration engine: builder, application, dependencies, rollback,
//! history, and the serialization round trip.

use tyl_qdrant_adapter::codec::interaction_to_json;
use tyl_qdrant_adapter::codec::interaction_from_json;
use tyl_qdrant_adapter::codec::migration_from_json;
use tyl_qdrant_adapter::codec::migration_to_json;
use tyl_qdrant_adapter::json::fields_get;
use tyl_qdrant_adapter::json::json_value_eq;
use tyl_qdrant_adapter::CollectionChange;
use tyl_qdrant_adapter::CollectionConfig;
use tyl_qdrant_adapter::DistanceMetric;
use tyl_qdrant_adapter::JsonValue;
use tyl_qdrant_adapter::MigrationBuilder;
use tyl_qdrant_adapter::MockQdrantAdapter;
use tyl_qdrant_adapter::PactContract;
use tyl_qdrant_adapter::PactInteraction;
use tyl_qdrant_adapter::ResponseStatus;
use tyl_qdrant_adapter::SchemaMigrationManager;
use tyl_qdrant_adapter::VectorCollectionManager;
use tyl_qdrant_adapter::VectorError;
use tyl_qdrant_adapter::VectorOperation;
use tyl_qdrant_adapter::VectorRequest;
use tyl_qdrant_adapter::VectorResponse;
use tyl_qdrant_adapter::Version;

fn obj(fields: Vec<(&str, JsonValue)>) -> JsonValue {
    JsonValue::Object(fields.into_iter().map(|(k, v)| (k.to_string(), v)).collect())
}

#[test]
fn test_migration_manager_initialization() {
    let adapter = MockQdrantAdapter::new();
    let mut manager = SchemaMigrationManager::new(adapter);

    let result = manager.initialize();
    assert!(result.is_ok());

    // Initialization is idempotent: a second call also succeeds.
    assert!(manager.initialize().is_ok());
}

#[test]
fn migration_tests_test_migration_builder() {
    let version = Version::new(1, 0, 0);
    let migration = MigrationBuilder::new(version, "Test migration".to_string())
        .author("Test Author".to_string())
        .description("Test description".to_string())
        .create_collection(
            CollectionConfig::new("test_collection".to_string(), 128, DistanceMetric::Cosine)
                .unwrap(),
        )
        .build();

    assert_eq!(migration.version, version);
    assert_eq!(migration.name, "Test migration");
    assert_eq!(migration.metadata.author, "Test Author");
    assert_eq!(migration.collection_changes.len(), 1);

    match &migration.collection_changes[0] {
        CollectionChange::CreateCollection(config) => {
            assert_eq!(config.name, "test_collection");
            assert_eq!(config.dimension, 128);
        }
        _ => panic!("Expected CreateCollection change"),
    }
}

#[test]
fn migration_test_migration_builder() {
    let version = Version::new(1, 0, 0);
    let migration = MigrationBuilder::new(version, "Initial schema".to_string())
        .author("Test Author".to_string())
        .description("Create initial collections".to_string())
        .create_collection(
            CollectionConfig::new("documents".to_string(), 768, DistanceMetric::Cosine).unwrap(),
        )
        .build();

    assert_eq!(migration.version, version);
    assert_eq!(migration.name, "Initial schema");
    assert_eq!(migration.metadata.author, "Test Author");
    assert_eq!(migration.collection_changes.len(), 1);
}

#[test]
fn test_migration_application() {
    let adapter = MockQdrantAdapter::new();
    let mut manager = SchemaMigrationManager::new(adapter);

    // Initialize migration system
    manager.initialize().unwrap();

    // Create test migration
    let version = Version::new(1, 0, 0);
    let migration = MigrationBuilder::new(version, "Create test collection".to_string())
        .author("Test".to_string())
        .create_collection(
            CollectionConfig::new("test_docs".to_string(), 256, DistanceMetric::Cosine).unwrap(),
        )
        .build();

    // Apply migration
    let result = manager.apply_migration(migration);
    assert!(result.is_ok());

    let migration_result = result.unwrap();
    assert_eq!(migration_result.version, version);
    assert_eq!(migration_result.applied_changes.len(), 1);
    assert!(migration_result.pact_validation_passed);
}

#[test]
fn test_migration_with_pact_contract() {
    let adapter = MockQdrantAdapter::new();
    let mut manager = SchemaMigrationManager::new(adapter);

    manager.initialize().unwrap();

    // Create migration with a consumer contract
    let pact_contract = PactContract {
        consumer: "test-service".to_string(),
        provider: "qdrant-adapter".to_string(),
        contract_path: "./test-pact.json".to_string(),
        interactions: vec![PactInteraction {
            description: "create collection for documents".to_string(),
            request: VectorRequest {
                operation: VectorOperation::CreateCollection,
                collection: "documents".to_string(),
                parameters: obj(vec![
                    ("dimension", JsonValue::Int(768)),
                    ("distance_metric", JsonValue::Str("Cosine".to_string())),
                ]),
            },
            response: VectorResponse {
                status: ResponseStatus::Success,
                data: Some(obj(vec![("created", JsonValue::Bool(true))])),
                error: None,
            },
        }],
    };

    let version = Version::new(1, 1, 0);
    let migration = MigrationBuilder::new(version, "Add documents collection".to_string())
        .author("Test".to_string())
        .create_collection(
            CollectionConfig::new("documents".to_string(), 768, DistanceMetric::Cosine).unwrap(),
        )
        .add_pact_contract(pact_contract)
        .build();

    // Apply migration with contract validation
    let result = manager.apply_migration(migration);
    assert!(result.is_ok());
}

#[test]
fn test_migration_dependencies() {
    let adapter = MockQdrantAdapter::new();
    let mut manager = SchemaMigrationManager::new(adapter);

    manager.initialize().unwrap();

    // Apply first migration
    let v1 = Version::new(1, 0, 0);
    let migration1 = MigrationBuilder::new(v1, "Base migration".to_string())
        .author("Test".to_string())
        .create_collection(
            CollectionConfig::new("base_collection".to_string(), 128, DistanceMetric::Cosine)
                .unwrap(),
        )
        .build();

    manager.apply_migration(migration1).unwrap();

    // Create dependent migration
    let v2 = Version::new(2, 0, 0);
    let migration2 = MigrationBuilder::new(v2, "Dependent migration".to_string())
        .author("Test".to_string())
        .depends_on(v1)
        .create_collection(
            CollectionConfig::new(
                "dependent_collection".to_string(),
                256,
                DistanceMetric::Euclidean,
            )
            .unwrap(),
        )
        .build();

    // Should succeed because dependency exists
    let result = manager.apply_migration(migration2);
    assert!(result.is_ok());

    // Test missing dependency
    let v3 = Version::new(3, 0, 0);
    let missing_dep = Version::new(99, 0, 0);
    let migration3 = MigrationBuilder::new(v3, "Failing migration".to_string())
        .author("Test".to_string())
        .depends_on(missing_dep)
        .create_collection(
            CollectionConfig::new(
                "failing_collection".to_string(),
                512,
                DistanceMetric::DotProduct,
            )
            .unwrap(),
        )
        .build();

    // Should fail due to missing dependency, and not create the collection
    let result = manager.apply_migration(migration3);
    assert!(result.is_err());
    match result {
        Err(VectorError::MissingDependency { version }) => assert_eq!(version, missing_dep),
        other => panic!("expected a missing-dependency error, got {:?}", other),
    }
}

#[test]
fn test_migration_rollback() {
    let adapter = MockQdrantAdapter::new();
    let mut manager = SchemaMigrationManager::new(adapter);

    manager.initialize().unwrap();

    // Create reversible migration (the default)
    let version = Version::new(1, 0, 0);
    let migration = MigrationBuilder::new(version, "Reversible migration".to_string())
        .author("Test".to_string())
        .create_collection(
            CollectionConfig::new("temp_collection".to_string(), 128, DistanceMetric::Cosine)
                .unwrap(),
        )
        .build();

    // Apply migration
    manager.apply_migration(migration).unwrap();

    // Rollback migration
    let result = manager.rollback_migration(version);
    assert!(result.is_ok());

    // The created collection is gone and the history record is removed:
    // a second rollback of the same version fails with not-found.
    let again = manager.rollback_migration(version);
    match again {
        Err(VectorError::NotFound { .. }) => {}
        other => panic!("expected a not-found error, got {:?}", other),
    }
}

#[test]
fn test_non_reversible_migration_rollback() {
    let adapter = MockQdrantAdapter::new();
    let mut manager = SchemaMigrationManager::new(adapter);

    manager.initialize().unwrap();

    // Create non-reversible migration
    let version = Version::new(1, 0, 0);
    let migration = MigrationBuilder::new(version, "Non-reversible migration".to_string())
        .author("Test".to_string())
        .non_reversible()
        .delete_collection("old_collection".to_string())
        .build();

    // Apply migration
    manager.apply_migration(migration).unwrap();

    // Rollback should fail, and the history keeps the record
    let result = manager.rollback_migration(version);
    assert!(result.is_err());
    let history = manager.get_migration_history().unwrap();
    assert_eq!(history.len(), 1);
    assert_eq!(history[0].version, version);
}

#[test]
fn test_migration_history() {
    let adapter = MockQdrantAdapter::new();
    let mut manager = SchemaMigrationManager::new(adapter);

    manager.initialize().unwrap();

    // Apply multiple migrations
    let migrations = vec![
        MigrationBuilder::new(Version::new(1, 0, 0), "First".to_string())
            .author("Test".to_string())
            .create_collection(
                CollectionConfig::new("collection1".to_string(), 128, DistanceMetric::Cosine)
                    .unwrap(),
            )
            .build(),
        MigrationBuilder::new(Version::new(1, 1, 0), "Second".to_string())
            .author("Test".to_string())
            .create_collection(
                CollectionConfig::new("collection2".to_string(), 256, DistanceMetric::Euclidean)
                    .unwrap(),
            )
            .build(),
    ];

    for migration in migrations {
        manager.apply_migration(migration).unwrap();
    }

    // Get migration history
    let history = manager.get_migration_history().unwrap();
    assert_eq!(history.len(), 2);

    // Should be sorted by version
    assert!(history[0].version < history[1].version);
}

#[test]
fn test_pact_interaction_serialization() {
    let interaction = PactInteraction {
        description: "store vector in collection".to_string(),
        request: VectorRequest {
            operation: VectorOperation::StoreVector,
            collection: "test".to_string(),
            parameters: obj(vec![
                ("id", JsonValue::Str("test-vector".to_string())),
                (
                    "embedding",
                    JsonValue::Array(vec![
                        JsonValue::Int(1),
                        JsonValue::Int(2),
                        JsonValue::Int(3),
                    ]),
                ),
            ]),
        },
        response: VectorResponse {
            status: ResponseStatus::Success,
            data: Some(obj(vec![("stored", JsonValue::Bool(true))])),
            error: None,
        },
    };

    // Test serialization/deserialization
    let json = interaction_to_json(interaction);
    let deserialized: PactInteraction = interaction_from_json(&json).unwrap();

    assert_eq!(deserialized.description, "store vector in collection");
    assert!(matches!(deserialized.request.operation, VectorOperation::StoreVector));
    assert!(matches!(deserialized.response.status, ResponseStatus::Success));
}

#[test]
fn test_pact_contract_creation() {
    let contract = PactContract {
        consumer: "document-service".to_string(),
        provider: "qdrant-adapter".to_string(),
        contract_path: "./pacts/document-service-qdrant-adapter.json".to_string(),
        interactions: vec![PactInteraction {
            description: "create documents collection".to_string(),
            request: VectorRequest {
                operation: VectorOperation::CreateCollection,
                collection: "documents".to_string(),
                parameters: obj(vec![
                    ("dimension", JsonValue::Int(768)),
                    ("distance_metric", JsonValue::Str("Cosine".to_string())),
                ]),
            },
            response: VectorResponse {
                status: ResponseStatus::Success,
                data: Some(obj(vec![("created", JsonValue::Bool(true))])),
                error: None,
            },
        }],
    };

    assert_eq!(contract.consumer, "document-service");
    assert_eq!(contract.interactions.len(), 1);
}

#[test]
fn test_migration_serialization_round_trip() {
    let migration = MigrationBuilder::new(Version::new(2, 3, 4), "Round trip".to_string())
        .author("Author".to_string())
        .description("Everything the structure can carry".to_string())
        .depends_on(Version::new(2, 3, 3))
        .breaking_change()
        .non_reversible()
        .create_collection(
            CollectionConfig::new("docs".to_string(), 768, DistanceMetric::DotProduct).unwrap(),
        )
        .delete_collection("legacy".to_string())
        .add_pact_contract(PactContract {
            consumer: "svc".to_string(),
            provider: "qdrant-adapter".to_string(),
            contract_path: "./p.json".to_string(),
            interactions: vec![PactInteraction {
                description: "search".to_string(),
                request: VectorRequest {
                    operation: VectorOperation::SearchSimilar,
                    collection: "docs".to_string(),
                    parameters: JsonValue::Null,
                },
                response: VectorResponse {
                    status: ResponseStatus::NotFound,
                    data: None,
                    error: Some("missing".to_string()),
                },
            }],
        })
        .build();

    let created_at = migration.metadata.created_at;
    let json = migration_to_json(migration);
    let back = migration_from_json(&json).expect("the round trip must succeed");

    assert_eq!(back.version, Version::new(2, 3, 4));
    assert_eq!(back.name, "Round trip");
    assert_eq!(back.metadata.author, "Author");
    assert_eq!(back.metadata.description, "Everything the structure can carry");
    assert_eq!(back.metadata.created_at, created_at);
    assert_eq!(back.metadata.dependencies, vec![Version::new(2, 3, 3)]);
    assert!(back.metadata.breaking_change);
    assert!(!back.metadata.reversible);
    assert_eq!(back.collection_changes.len(), 2);
    match &back.collection_changes[0] {
        CollectionChange::CreateCollection(cfg) => {
            assert_eq!(cfg.name, "docs");
            assert_eq!(cfg.dimension, 768);
            assert!(matches!(cfg.distance_metric, DistanceMetric::DotProduct));
        }
        other => panic!("expected a collection creation, got {:?}", other),
    }
    match &back.collection_changes[1] {
        CollectionChange::DeleteCollection(name) => assert_eq!(name, "legacy"),
        other => panic!("expected a collection deletion, got {:?}", other),
    }
    assert_eq!(back.pact_contracts.len(), 1);
    assert_eq!(back.pact_contracts[0].consumer, "svc");
    assert_eq!(back.pact_contracts[0].interactions.len(), 1);
    assert_eq!(back.pact_contracts[0].interactions[0].response.error, Some("missing".to_string()));
}

#[test]
fn test_version_rendering() {
    assert_eq!(Version::new(1, 0, 0).render(), "1.0.0");
    assert_eq!(Version::new(12, 34, 56).render(), "12.34.56");
    assert_eq!(Version::new(0, 0, 0).render(), "0.0.0");
}

#[test]
fn test_docs_and_analytics_scenario() {
    // Collection "docs" created at v1.0.0 (dimension 768, cosine);
    // v1.1.0 depends on v1.0.0 and adds "analytics" (dimension 512,
    // dot-product). Both apply; history has length 2, ascending.
    let adapter = MockQdrantAdapter::new();
    let mut manager = SchemaMigrationManager::new(adapter);
    manager.initialize().unwrap();

    let v1 = Version::new(1, 0, 0);
    let first = MigrationBuilder::new(v1, "docs".to_string())
        .author("Test".to_string())
        .create_collection(
            CollectionConfig::new("docs".to_string(), 768, DistanceMetric::Cosine).unwrap(),
        )
        .build();
    assert!(manager.apply_migration(first).is_ok());

    let v2 = Version::new(1, 1, 0);
    let second = MigrationBuilder::new(v2, "analytics".to_string())
        .author("Test".to_string())
        .depends_on(v1)
        .create_collection(
            CollectionConfig::new("analytics".to_string(), 512, DistanceMetric::DotProduct)
                .unwrap(),
        )
        .build();
    assert!(manager.apply_migration(second).is_ok());

    let history = manager.get_migration_history().unwrap();
    assert_eq!(history.len(), 2);
    assert_eq!(history[0].version, v1);
    assert_eq!(history[1].version, v2);
}

#[test]
fn test_rollback_removes_created_collections() {
    let adapter = MockQdrantAdapter::new();
    let mut manager = SchemaMigrationManager::new(adapter);
    manager.initialize().unwrap();

    let version = Version::new(1, 0, 0);
    let migration = MigrationBuilder::new(version, "temp".to_string())
        .author("Test".to_string())
        .create_collection(
            CollectionConfig::new("temp_collection".to_string(), 128, DistanceMetric::Cosine)
                .unwrap(),
        )
        .build();
    manager.apply_migration(migration).unwrap();
    manager.rollback_migration(version).unwrap();

    // The created collection is gone and the history is empty.
    let history = manager.get_migration_history().unwrap();
    assert!(history.is_empty());
}

#[test]
fn test_update_and_rename_changes_always_fail() {
    let adapter = MockQdrantAdapter::new();
    let mut manager = SchemaMigrationManager::new(adapter);
    manager.initialize().unwrap();

    let mut with_update = MigrationBuilder::new(Version::new(1, 0, 0), "up".to_string())
        .author("Test".to_string())
        .build();
    with_update.collection_changes.push(CollectionChange::UpdateCollection {
        name: "docs".to_string(),
        dimension_change: Some(1024),
        distance_metric_change: None,
    });
    assert!(manager.apply_migration(with_update).is_err());

    let mut with_rename = MigrationBuilder::new(Version::new(1, 0, 1), "rn".to_string())
        .author("Test".to_string())
        .build();
    with_rename.collection_changes.push(CollectionChange::RenameCollection {
        old_name: "docs".to_string(),
        new_name: "documents".to_string(),
    });
    assert!(manager.apply_migration(with_rename).is_err());
}

#[test]
fn test_generate_pact_content_shape() {
    let adapter = MockQdrantAdapter::new();
    let manager = SchemaMigrationManager::new(adapter);
    let contract = PactContract {
        consumer: "svc".to_string(),
        provider: "qdrant-adapter".to_string(),
        contract_path: "./p.json".to_string(),
        interactions: vec![PactInteraction {
            description: "ping".to_string(),
            request: VectorRequest {
                operation: VectorOperation::ListCollections,
                collection: "any".to_string(),
                parameters: JsonValue::Null,
            },
            response: VectorResponse {
                status: ResponseStatus::Error,
                data: None,
                error: None,
            },
        }],
    };
    let doc = manager.generate_pact_content(&contract);
    match &doc {
        JsonValue::Object(fields) => {
            let consumer = fields_get(fields, "consumer").unwrap();
            match consumer {
                JsonValue::Object(cf) => {
                    assert!(json_value_eq(
                        fields_get(cf, "name").unwrap(),
                        &JsonValue::Str("svc".to_string()),
                    ));
                }
                other => panic!("expected an object, got {:?}", other),
            }
            assert!(fields_get(fields, "interactions").is_some());
            assert!(fields_get(fields, "metadata").is_some());
        }
        other => panic!("expected an object, got {:?}", other),
    }
}

#[test]
fn test_contract_mismatch_fails_migration() {
    let adapter = MockQdrantAdapter::new();
    let mut manager = SchemaMigrationManager::new(adapter);
    manager.initialize().unwrap();

    // The mock accepts searches only on existing collections, so a
    // contract expecting success from a search on a missing collection
    // must fail validation before any schema change is applied.
    let contract = PactContract {
        consumer: "svc".to_string(),
        provider: "qdrant-adapter".to_string(),
        contract_path: "./p.json".to_string(),
        interactions: vec![PactInteraction {
            description: "search a missing collection".to_string(),
            request: VectorRequest {
                operation: VectorOperation::SearchSimilar,
                collection: "missing_collection".to_string(),
                parameters: JsonValue::Null,
            },
            response: VectorResponse {
                status: ResponseStatus::Success,
                data: None,
                error: None,
            },
        }],
    };

    let migration = MigrationBuilder::new(Version::new(1, 0, 0), "gated".to_string())
        .author("Test".to_string())
        .create_collection(
            CollectionConfig::new("gated_collection".to_string(), 16, DistanceMetric::Cosine)
                .unwrap(),
        )
        .add_pact_contract(contract)
        .build();

    let result = manager.apply_migration(migration);
    match result {
        Err(VectorError::ContractMismatch { .. }) => {}
        other => panic!("expected a contract-mismatch error, got {:?}", other),
    }
}
