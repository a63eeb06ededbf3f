//! The schema-migration data model and its fluent builder.
//!
//! A migration is an immutable, versioned, named and authored list of
//! collection-level changes, with dependency and reversibility metadata
//! and optional consumer contracts to validate before it is applied.

use vstd::prelude::*;

use crate::json::JsonModel;
use crate::json::JsonValue;
use crate::qdrant_errors::make_string;
use crate::time::now_timestamp_millis;
use crate::vector::CollectionConfig;
use crate::vector::CollectionConfigModel;
use crate::vector::DistanceMetric;
use crate::version::Version;

verus! {

/// Index kinds a collection field can carry.
#[derive(Clone, Copy, Debug, PartialEq, Eq, Structural)]
pub enum IndexType {
    /// Text search index.
    Text,
    /// Numeric range index.
    Numeric,
    /// Keyword exact match index.
    Keyword,
    /// Geographic index.
    Geo,
    /// Boolean index.
    Boolean,
}

/// One collection-level change. `UpdateCollection` and
/// `RenameCollection` are representable but always fail at apply time:
/// the backend supports neither in-place schema mutation nor renaming,
/// and the variants exist to document intent and force explicit manual
/// data migration.
#[derive(Debug)]
pub enum CollectionChange {
    /// Create a new collection.
    CreateCollection(CollectionConfig),
    /// Delete an existing collection.
    DeleteCollection(String),
    /// Update collection configuration (never applicable).
    UpdateCollection {
        name: String,
        dimension_change: Option<usize>,
        distance_metric_change: Option<DistanceMetric>,
    },
    /// Rename a collection (never applicable).
    RenameCollection { old_name: String, new_name: String },
    /// Add an index to a collection field (documentation only).
    AddIndex { collection: String, field: String, index_type: IndexType },
    /// Remove an index from a collection field (documentation only).
    RemoveIndex { collection: String, field: String },
}

/// The model of a `CollectionChange`.
pub enum CollectionChangeModel {
    CreateCollection(CollectionConfigModel),
    DeleteCollection(Seq<char>),
    UpdateCollection {
        name: Seq<char>,
        dimension_change: Option<usize>,
        distance_metric_change: Option<DistanceMetric>,
    },
    RenameCollection { old_name: Seq<char>, new_name: Seq<char> },
    AddIndex { collection: Seq<char>, field: Seq<char>, index_type: IndexType },
    RemoveIndex { collection: Seq<char>, field: Seq<char> },
}

impl View for CollectionChange {
    type V = CollectionChangeModel;

    open spec fn view(&self) -> CollectionChangeModel {
        match self {
            CollectionChange::CreateCollection(c) => CollectionChangeModel::CreateCollection(c@),
            CollectionChange::DeleteCollection(n) => CollectionChangeModel::DeleteCollection(n@),
            CollectionChange::UpdateCollection { name, dimension_change, distance_metric_change } =>
                CollectionChangeModel::UpdateCollection {
                name: name@,
                dimension_change: *dimension_change,
                distance_metric_change: *distance_metric_change,
            },
            CollectionChange::RenameCollection { old_name, new_name } =>
                CollectionChangeModel::RenameCollection { old_name: old_name@, new_name: new_name@ },
            CollectionChange::AddIndex { collection, field, index_type } =>
                CollectionChangeModel::AddIndex {
                collection: collection@,
                field: field@,
                index_type: *index_type,
            },
            CollectionChange::RemoveIndex { collection, field } =>
                CollectionChangeModel::RemoveIndex { collection: collection@, field: field@ },
        }
    }
}

/// The models of a change list.
pub open spec fn changes_model(s: Seq<CollectionChange>) -> Seq<CollectionChangeModel> {
    Seq::new(s.len(), |i: int| s[i]@)
}

/// Authorship, dependencies and reversibility of a migration.
#[derive(Debug)]
pub struct MigrationMetadata {
    /// Author of the migration.
    pub author: String,
    /// Creation time, in milliseconds since the Unix epoch.
    pub created_at: i64,
    /// Free-form description.
    pub description: String,
    /// Versions this migration depends on.
    pub dependencies: Vec<Version>,
    /// Whether the migration can be rolled back.
    pub reversible: bool,
    /// Whether the migration breaks consumers.
    pub breaking_change: bool,
}

/// The model of `MigrationMetadata`.
pub struct MigrationMetadataModel {
    pub author: Seq<char>,
    pub created_at: i64,
    pub description: Seq<char>,
    pub dependencies: Seq<Version>,
    pub reversible: bool,
    pub breaking_change: bool,
}

impl View for MigrationMetadata {
    type V = MigrationMetadataModel;

    open spec fn view(&self) -> MigrationMetadataModel {
        MigrationMetadataModel {
            author: self.author@,
            created_at: self.created_at,
            description: self.description@,
            dependencies: self.dependencies@,
            reversible: self.reversible,
            breaking_change: self.breaking_change,
        }
    }
}

/// Operations a contract interaction can exercise.
#[derive(Clone, Copy, Debug, PartialEq, Eq, Structural)]
pub enum VectorOperation {
    StoreVector,
    GetVector,
    SearchSimilar,
    DeleteVector,
    CreateCollection,
    DeleteCollection,
    ListCollections,
}

/// Outcome classes a contract interaction can expect.
#[derive(Clone, Copy, Debug, PartialEq, Eq, Structural)]
pub enum ResponseStatus {
    Success,
    Error,
    NotFound,
}

/// The request half of a contract interaction.
#[derive(Debug)]
pub struct VectorRequest {
    /// Operation to exercise.
    pub operation: VectorOperation,
    /// Collection the operation addresses.
    pub collection: String,
    /// Free-form request parameters.
    pub parameters: JsonValue,
}

/// The model of a `VectorRequest`.
pub struct VectorRequestModel {
    pub operation: VectorOperation,
    pub collection: Seq<char>,
    pub parameters: JsonModel,
}

impl View for VectorRequest {
    type V = VectorRequestModel;

    open spec fn view(&self) -> VectorRequestModel {
        VectorRequestModel {
            operation: self.operation,
            collection: self.collection@,
            parameters: self.parameters@,
        }
    }
}

/// The expected response half of a contract interaction.
#[derive(Debug)]
pub struct VectorResponse {
    /// Expected outcome class.
    pub status: ResponseStatus,
    /// Expected response data, if any.
    pub data: Option<JsonValue>,
    /// Expected error information, if any.
    pub error: Option<String>,
}

/// The model of a `VectorResponse`.
pub struct VectorResponseModel {
    pub status: ResponseStatus,
    pub data: Option<JsonModel>,
    pub error: Option<Seq<char>>,
}

impl View for VectorResponse {
    type V = VectorResponseModel;

    open spec fn view(&self) -> VectorResponseModel {
        VectorResponseModel {
            status: self.status,
            data: match &self.data {
                Some(v) => Some(v@),
                None => None,
            },
            error: match &self.error {
                Some(s) => Some(s@),
                None => None,
            },
        }
    }
}

/// One expected request/response pair of a consumer contract.
#[derive(Debug)]
pub struct PactInteraction {
    /// What the interaction exercises.
    pub description: String,
    /// The request to issue.
    pub request: VectorRequest,
    /// The expected response.
    pub response: VectorResponse,
}

/// The model of a `PactInteraction`.
pub struct PactInteractionModel {
    pub description: Seq<char>,
    pub request: VectorRequestModel,
    pub response: VectorResponseModel,
}

impl View for PactInteraction {
    type V = PactInteractionModel;

    open spec fn view(&self) -> PactInteractionModel {
        PactInteractionModel {
            description: self.description@,
            request: self.request@,
            response: self.response@,
        }
    }
}

/// The models of an interaction list.
pub open spec fn interactions_model(s: Seq<PactInteraction>) -> Seq<PactInteractionModel> {
    Seq::new(s.len(), |i: int| s[i]@)
}

/// A consumer contract: who consumes, who provides, where the artifact
/// lives, and the interactions to validate.
#[derive(Debug)]
pub struct PactContract {
    /// Consumer name (usually the service using this adapter).
    pub consumer: String,
    /// Provider name.
    pub provider: String,
    /// Contract artifact path or identifier.
    pub contract_path: String,
    /// Expected interactions.
    pub interactions: Vec<PactInteraction>,
}

/// The model of a `PactContract`.
pub struct PactContractModel {
    pub consumer: Seq<char>,
    pub provider: Seq<char>,
    pub contract_path: Seq<char>,
    pub interactions: Seq<PactInteractionModel>,
}

impl View for PactContract {
    type V = PactContractModel;

    open spec fn view(&self) -> PactContractModel {
        PactContractModel {
            consumer: self.consumer@,
            provider: self.provider@,
            contract_path: self.contract_path@,
            interactions: interactions_model(self.interactions@),
        }
    }
}

/// The models of a contract list.
pub open spec fn contracts_model(s: Seq<PactContract>) -> Seq<PactContractModel> {
    Seq::new(s.len(), |i: int| s[i]@)
}

/// A schema migration: immutable once built, identified by its version.
#[derive(Debug)]
pub struct SchemaMigration {
    /// Version, globally unique within a manager's history.
    pub version: Version,
    /// Human-readable name.
    pub name: String,
    /// Changes to apply, in declared order.
    pub collection_changes: Vec<CollectionChange>,
    /// Authorship, dependencies and reversibility.
    pub metadata: MigrationMetadata,
    /// Consumer contracts to validate before applying.
    pub pact_contracts: Vec<PactContract>,
}

/// The model of a `SchemaMigration`.
pub struct SchemaMigrationModel {
    pub version: Version,
    pub name: Seq<char>,
    pub collection_changes: Seq<CollectionChangeModel>,
    pub metadata: MigrationMetadataModel,
    pub pact_contracts: Seq<PactContractModel>,
}

impl View for SchemaMigration {
    type V = SchemaMigrationModel;

    open spec fn view(&self) -> SchemaMigrationModel {
        SchemaMigrationModel {
            version: self.version,
            name: self.name@,
            collection_changes: changes_model(self.collection_changes@),
            metadata: self.metadata@,
            pact_contracts: contracts_model(self.pact_contracts@),
        }
    }
}

/// The outcome of one applied change.
#[derive(Debug)]
pub enum ChangeResult {
    CollectionCreated(String),
    CollectionDeleted(String),
    CollectionUpdated(String),
    CollectionRenamed { old: String, new: String },
    IndexAdded { collection: String, field: String, index_type: IndexType },
    IndexRemoved { collection: String, field: String },
}

/// The model of a `ChangeResult`.
pub enum ChangeResultModel {
    CollectionCreated(Seq<char>),
    CollectionDeleted(Seq<char>),
    CollectionUpdated(Seq<char>),
    CollectionRenamed { old: Seq<char>, new: Seq<char> },
    IndexAdded { collection: Seq<char>, field: Seq<char>, index_type: IndexType },
    IndexRemoved { collection: Seq<char>, field: Seq<char> },
}

impl View for ChangeResult {
    type V = ChangeResultModel;

    open spec fn view(&self) -> ChangeResultModel {
        match self {
            ChangeResult::CollectionCreated(n) => ChangeResultModel::CollectionCreated(n@),
            ChangeResult::CollectionDeleted(n) => ChangeResultModel::CollectionDeleted(n@),
            ChangeResult::CollectionUpdated(n) => ChangeResultModel::CollectionUpdated(n@),
            ChangeResult::CollectionRenamed { old, new } => ChangeResultModel::CollectionRenamed {
                old: old@,
                new: new@,
            },
            ChangeResult::IndexAdded { collection, field, index_type } =>
                ChangeResultModel::IndexAdded {
                collection: collection@,
                field: field@,
                index_type: *index_type,
            },
            ChangeResult::IndexRemoved { collection, field } => ChangeResultModel::IndexRemoved {
                collection: collection@,
                field: field@,
            },
        }
    }
}

/// The models of a change-result list.
pub open spec fn change_results_model(s: Seq<ChangeResult>) -> Seq<ChangeResultModel> {
    Seq::new(s.len(), |i: int| s[i]@)
}

/// The outcome of applying a migration: its version, the per-change
/// outcomes in order, and whether contract validation passed.
#[derive(Debug)]
pub struct MigrationResult {
    pub version: Version,
    pub applied_changes: Vec<ChangeResult>,
    pub pact_validation_passed: bool,
}

/// Fluent, order-independent construction of a migration. `build` is
/// total: validation happens at apply time, not at build time.
#[derive(Debug)]
pub struct MigrationBuilder {
    migration: SchemaMigration,
}

impl MigrationBuilder {
    /// The migration as configured so far.
    pub closed spec fn current(&self) -> SchemaMigrationModel {
        self.migration@
    }

    /// Start a migration with the given version and name; by default it
    /// is authored by "unknown", created now, reversible, non-breaking,
    /// with no changes, dependencies or contracts.
    pub fn new(version: Version, name: String) -> (r: MigrationBuilder)
        ensures
            r.current().version == version,
            r.current().name == name@,
            r.current().collection_changes == Seq::<CollectionChangeModel>::empty(),
            r.current().metadata.author == "unknown"@,
            r.current().metadata.description == Seq::<char>::empty(),
            r.current().metadata.dependencies == Seq::<Version>::empty(),
            r.current().metadata.reversible == true,
            r.current().metadata.breaking_change == false,
            r.current().pact_contracts == Seq::<PactContractModel>::empty(),
    {
        let r = MigrationBuilder {
            migration: SchemaMigration {
                version,
                name,
                collection_changes: Vec::new(),
                metadata: MigrationMetadata {
                    author: make_string("unknown"),
                    created_at: now_timestamp_millis(),
                    description: String::new(),
                    dependencies: Vec::new(),
                    reversible: true,
                    breaking_change: false,
                },
                pact_contracts: Vec::new(),
            },
        };
        proof {
            assert(changes_model(r.migration.collection_changes@)
                =~= Seq::<CollectionChangeModel>::empty());
            assert(contracts_model(r.migration.pact_contracts@)
                =~= Seq::<PactContractModel>::empty());
        }
        r
    }

    /// Set the author.
    pub fn author(self, author: String) -> (r: MigrationBuilder)
        ensures
            r.current() == (SchemaMigrationModel {
                metadata: MigrationMetadataModel { author: author@, ..self.current().metadata },
                ..self.current()
            }),
    {
        let mut m = self.migration;
        m.metadata.author = author;
        MigrationBuilder { migration: m }
    }

    /// Set the description.
    pub fn description(self, description: String) -> (r: MigrationBuilder)
        ensures
            r.current() == (SchemaMigrationModel {
                metadata: MigrationMetadataModel {
                    description: description@,
                    ..self.current().metadata
                },
                ..self.current()
            }),
    {
        let mut m = self.migration;
        m.metadata.description = description;
        MigrationBuilder { migration: m }
    }

    /// Add a dependency on another migration's version.
    pub fn depends_on(self, version: Version) -> (r: MigrationBuilder)
        ensures
            r.current() == (SchemaMigrationModel {
                metadata: MigrationMetadataModel {
                    dependencies: self.current().metadata.dependencies.push(version),
                    ..self.current().metadata
                },
                ..self.current()
            }),
    {
        let mut m = self.migration;
        m.metadata.dependencies.push(version);
        MigrationBuilder { migration: m }
    }

    /// Mark the migration as a breaking change.
    pub fn breaking_change(self) -> (r: MigrationBuilder)
        ensures
            r.current() == (SchemaMigrationModel {
                metadata: MigrationMetadataModel {
                    breaking_change: true,
                    ..self.current().metadata
                },
                ..self.current()
            }),
    {
        let mut m = self.migration;
        m.metadata.breaking_change = true;
        MigrationBuilder { migration: m }
    }

    /// Mark the migration as non-reversible.
    pub fn non_reversible(self) -> (r: MigrationBuilder)
        ensures
            r.current() == (SchemaMigrationModel {
                metadata: MigrationMetadataModel { reversible: false, ..self.current().metadata },
                ..self.current()
            }),
    {
        let mut m = self.migration;
        m.metadata.reversible = false;
        MigrationBuilder { migration: m }
    }

    /// Append a collection creation.
    pub fn create_collection(self, config: CollectionConfig) -> (r: MigrationBuilder)
        ensures
            r.current() == (SchemaMigrationModel {
                collection_changes: self.current().collection_changes.push(
                    CollectionChangeModel::CreateCollection(config@),
                ),
                ..self.current()
            }),
    {
        let mut m = self.migration;
        let ghost before = m.collection_changes@;
        m.collection_changes.push(CollectionChange::CreateCollection(config));
        proof {
            assert(changes_model(m.collection_changes@) =~= changes_model(before).push(
                m.collection_changes@.last()@,
            ));
        }
        MigrationBuilder { migration: m }
    }

    /// Append a collection deletion.
    pub fn delete_collection(self, name: String) -> (r: MigrationBuilder)
        ensures
            r.current() == (SchemaMigrationModel {
                collection_changes: self.current().collection_changes.push(
                    CollectionChangeModel::DeleteCollection(name@),
                ),
                ..self.current()
            }),
    {
        let mut m = self.migration;
        let ghost before = m.collection_changes@;
        m.collection_changes.push(CollectionChange::DeleteCollection(name));
        proof {
            assert(changes_model(m.collection_changes@) =~= changes_model(before).push(
                m.collection_changes@.last()@,
            ));
        }
        MigrationBuilder { migration: m }
    }

    /// Append a consumer contract to validate.
    pub fn add_pact_contract(self, contract: PactContract) -> (r: MigrationBuilder)
        ensures
            r.current() == (SchemaMigrationModel {
                pact_contracts: self.current().pact_contracts.push(contract@),
                ..self.current()
            }),
    {
        let mut m = self.migration;
        let ghost before = m.pact_contracts@;
        m.pact_contracts.push(contract);
        proof {
            assert(contracts_model(m.pact_contracts@) =~= contracts_model(before).push(
                m.pact_contracts@.last()@,
            ));
        }
        MigrationBuilder { migration: m }
    }

    /// Finish: hand out the configured migration. Always succeeds.
    pub fn build(self) -> (r: SchemaMigration)
        ensures
            r@ == self.current(),
    {
        self.migration
    }
}

} // verus!
