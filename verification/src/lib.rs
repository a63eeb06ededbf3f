//! Verified core of a Qdrant-style vector-store adapter.
//!
//! The crate contains the two pieces of the adapter that carry real logic:
//! a query-filter compiler that turns JSON-like filter expressions into a
//! backend-native condition tree, and a schema-migration engine that tracks,
//! validates, applies and rolls back versioned collection changes, with the
//! migration history persisted through a pluggable vector-store backend.
//!
//! Network communication with a real backend is out of scope here; the
//! backend is reached through the `VectorStore` / `VectorCollectionManager`
//! traits, and an in-memory implementation (`MockQdrantAdapter`) is provided
//! and verified against the same contracts.

pub mod assoc;
pub mod codec;
pub mod config;
pub mod errors;
pub mod filter;
pub mod json;
pub mod manager;
pub mod migration;
pub mod mock;
pub mod qdrant_errors;
pub mod store;
pub mod time;
pub mod vector;
pub mod version;

pub use config::QdrantConfig;
pub use errors::VectorError;
pub use json::FloatVal;
pub use json::JsonValue;
pub use migration::ChangeResult;
pub use migration::CollectionChange;
pub use migration::IndexType;
pub use migration::MigrationBuilder;
pub use migration::MigrationMetadata;
pub use migration::MigrationResult;
pub use migration::PactContract;
pub use migration::PactInteraction;
pub use migration::ResponseStatus;
pub use migration::SchemaMigration;
pub use migration::VectorOperation;
pub use migration::VectorRequest;
pub use migration::VectorResponse;
pub use manager::SchemaMigrationManager;
pub use mock::MockQdrantAdapter;
pub use store::BackendState;
pub use store::VectorCollectionManager;
pub use store::VectorDatabase;
pub use store::VectorStore;
pub use store::VectorStoreHealth;
pub use vector::CollectionConfig;
pub use vector::DistanceMetric;
pub use vector::SearchParams;
pub use vector::Vector;
pub use vector::VectorSearchResult;
pub use version::Version;
