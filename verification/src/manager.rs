//! The schema-migration manager.
//!
//! The manager orchestrates one logical resource — the migration history,
//! persisted in a reserved collection of the backend — through a sequence
//! of gates: contract validation, dependency validation, change
//! application in declared order, and history recording. Rollback applies
//! the reverse of each change in reverse order and removes the history
//! record. Every gate failure surfaces as a typed error identifying the
//! gate, and a change failure mid-migration leaves the earlier changes
//! applied (no automatic compensation).
//!
//! The manager does not serialize concurrent applications; single-writer
//! usage is assumed.

use vstd::prelude::*;

use crate::codec::dec_migration;
use crate::codec::migration_from_json;
use crate::codec::migration_json;
use crate::codec::migration_to_json;
use crate::errors::VectorError;
use crate::json::fields_find;
use crate::json::fields_get;
use crate::json::fields_model;
use crate::json::JsonModel;
use crate::json::JsonValue;
use crate::migration::ChangeResult;
use crate::migration::ChangeResultModel;
use crate::migration::CollectionChange;
use crate::migration::CollectionChangeModel;
use crate::migration::MigrationResult;
use crate::migration::PactContract;
use crate::migration::PactInteraction;
use crate::migration::ResponseStatus;
use crate::migration::SchemaMigration;
use crate::migration::SchemaMigrationModel;
use crate::migration::VectorOperation;
use crate::migration::VectorResponse;
use crate::qdrant_errors::make_string;
use crate::store::coll_records;
use crate::store::VectorCollectionManager;
use crate::store::VectorStore;
use crate::vector::CollectionConfig;
use crate::vector::CollectionConfigModel;
use crate::vector::DistanceMetric;
use crate::vector::SearchParams;
use crate::vector::Vector;
use crate::vector::VectorRecordModel;
use crate::version::version_string_model;
use crate::version::Version;

verus! {

/// The history key a version is stored under.
pub open spec fn version_key(v: Version) -> Seq<char> {
    version_string_model(v)
}

/// The record a migration is persisted as: keyed by the rendered
/// version, a placeholder embedding, and the serialized migration plus a
/// type tag as metadata.
pub open spec fn migration_record(m: SchemaMigrationModel) -> VectorRecordModel {
    VectorRecordModel {
        id: version_key(m.version),
        embedding: Seq::new(256, |i: int| 0u32),
        metadata: seq![
            ("migration"@, migration_json(m)),
            ("type"@, JsonModel::Str("schema_migration"@)),
        ],
    }
}

/// Whether some record of a history table denotes a migration with
/// version `v`.
pub open spec fn dep_present_in(hm: Map<Seq<char>, VectorRecordModel>, v: Version) -> bool {
    exists|id: Seq<char>|
        #[trigger] hm.contains_key(id) && (match rec_migration(hm[id]) {
            Some(m) => m.version == v,
            None => false,
        })
}

/// The configuration the create-collection simulation probes with.
pub open spec fn probe_config() -> CollectionConfigModel {
    CollectionConfigModel {
        name: "test_migration"@,
        dimension: 128,
        distance_metric: DistanceMetric::Cosine,
    }
}

/// The record the store-vector simulation probes with.
pub open spec fn probe_record() -> VectorRecordModel {
    VectorRecordModel {
        id: "test"@,
        embedding: Seq::new(128, |i: int| 0u32),
        metadata: Seq::empty(),
    }
}

/// A history key (digits and dots) never collides with the probe
/// record id.
proof fn lemma_version_key_not_probe(v: Version)
    ensures
        version_key(v) != "test"@,
{
    reveal_strlit("test");
    crate::version::lemma_digits_shape(v.major as nat);
    let d = crate::version::u64_digits(v.major as nat);
    let s = version_key(v);
    assert(s[0] == d[0]);
    assert(crate::version::char_digit(d[0]) is Some);
    if s == "test"@ {
        assert(s[0] == 't');
        assert(false);
    }
}

/// The migration a history record denotes, if its payload decodes.
pub open spec fn rec_migration(r: VectorRecordModel) -> Option<SchemaMigrationModel> {
    match fields_find(r.metadata, "migration"@) {
        Some(j) => dec_migration(j),
        None => None,
    }
}

/// The reported outcome of an applicable change.
pub open spec fn change_outcome(c: CollectionChangeModel) -> ChangeResultModel {
    match c {
        CollectionChangeModel::CreateCollection(cfg) => ChangeResultModel::CollectionCreated(
            cfg.name,
        ),
        CollectionChangeModel::DeleteCollection(n) => ChangeResultModel::CollectionDeleted(n),
        CollectionChangeModel::UpdateCollection { name, .. } =>
            ChangeResultModel::CollectionUpdated(name),
        CollectionChangeModel::RenameCollection { old_name, new_name } =>
            ChangeResultModel::CollectionRenamed { old: old_name, new: new_name },
        CollectionChangeModel::AddIndex { collection, field, index_type } =>
            ChangeResultModel::IndexAdded { collection, field, index_type },
        CollectionChangeModel::RemoveIndex { collection, field } =>
            ChangeResultModel::IndexRemoved { collection, field },
    }
}

/// How one applicable change transforms the collection table.
pub open spec fn apply_change_cols(
    cols: Map<Seq<char>, CollectionConfigModel>,
    c: CollectionChangeModel,
) -> Map<Seq<char>, CollectionConfigModel> {
    match c {
        CollectionChangeModel::CreateCollection(cfg) => cols.insert(cfg.name, cfg),
        CollectionChangeModel::DeleteCollection(n) => cols.remove(n),
        _ => cols,
    }
}

/// How one applicable change transforms the record tables.
pub open spec fn apply_change_vecs(
    vecs: Map<Seq<char>, Map<Seq<char>, VectorRecordModel>>,
    c: CollectionChangeModel,
) -> Map<Seq<char>, Map<Seq<char>, VectorRecordModel>> {
    match c {
        CollectionChangeModel::CreateCollection(cfg) => vecs.insert(cfg.name, Map::empty()),
        CollectionChangeModel::DeleteCollection(n) => vecs.remove(n),
        _ => vecs,
    }
}

/// The collection table after applying a change list in declared order.
pub open spec fn apply_all_cols(
    cols: Map<Seq<char>, CollectionConfigModel>,
    cs: Seq<CollectionChangeModel>,
) -> Map<Seq<char>, CollectionConfigModel>
    decreases cs.len(),
{
    if cs.len() == 0 {
        cols
    } else {
        apply_change_cols(apply_all_cols(cols, cs.drop_last()), cs.last())
    }
}

/// The record tables after applying a change list in declared order.
pub open spec fn apply_all_vecs(
    vecs: Map<Seq<char>, Map<Seq<char>, VectorRecordModel>>,
    cs: Seq<CollectionChangeModel>,
) -> Map<Seq<char>, Map<Seq<char>, VectorRecordModel>>
    decreases cs.len(),
{
    if cs.len() == 0 {
        vecs
    } else {
        apply_change_vecs(apply_all_vecs(vecs, cs.drop_last()), cs.last())
    }
}

/// The reverse of one change, on the collection table: creating a
/// collection reverses to deleting it; everything else reverses to a
/// no-op (deletion has no reverse and fails before reaching this).
pub open spec fn reverse_change_cols(
    cols: Map<Seq<char>, CollectionConfigModel>,
    c: CollectionChangeModel,
) -> Map<Seq<char>, CollectionConfigModel> {
    match c {
        CollectionChangeModel::CreateCollection(cfg) => cols.remove(cfg.name),
        _ => cols,
    }
}

/// The reverse of one change, on the record tables.
pub open spec fn reverse_change_vecs(
    vecs: Map<Seq<char>, Map<Seq<char>, VectorRecordModel>>,
    c: CollectionChangeModel,
) -> Map<Seq<char>, Map<Seq<char>, VectorRecordModel>> {
    match c {
        CollectionChangeModel::CreateCollection(cfg) => vecs.remove(cfg.name),
        _ => vecs,
    }
}

/// The collection table after reversing the changes from index `k` on,
/// last first.
pub open spec fn reverse_from_cols(
    cols: Map<Seq<char>, CollectionConfigModel>,
    cs: Seq<CollectionChangeModel>,
    k: int,
) -> Map<Seq<char>, CollectionConfigModel>
    decreases cs.len() - k,
{
    if k < 0 || k >= cs.len() {
        cols
    } else {
        reverse_change_cols(reverse_from_cols(cols, cs, k + 1), cs[k])
    }
}

/// The record tables after reversing the changes from index `k` on,
/// last first.
pub open spec fn reverse_from_vecs(
    vecs: Map<Seq<char>, Map<Seq<char>, VectorRecordModel>>,
    cs: Seq<CollectionChangeModel>,
    k: int,
) -> Map<Seq<char>, Map<Seq<char>, VectorRecordModel>>
    decreases cs.len() - k,
{
    if k < 0 || k >= cs.len() {
        vecs
    } else {
        reverse_change_vecs(reverse_from_vecs(vecs, cs, k + 1), cs[k])
    }
}

/// The migration manager, generic in the backend it drives.
pub struct SchemaMigrationManager<T> where T: VectorStore + VectorCollectionManager {
    adapter: T,
    migration_collection: String,
    pact_dir: String,
}

impl<T> SchemaMigrationManager<T> where T: VectorStore + VectorCollectionManager {
    /// The backend's collection table.
    pub closed spec fn collections(&self) -> Map<Seq<char>, CollectionConfigModel> {
        self.adapter.collections_view()
    }

    /// The backend's record tables.
    pub closed spec fn vectors(&self) -> Map<Seq<char>, Map<Seq<char>, VectorRecordModel>> {
        self.adapter.vectors_view()
    }

    /// The name of the reserved history collection.
    pub closed spec fn mcoll(&self) -> Seq<char> {
        self.migration_collection@
    }

    /// The configured contract-artifact directory.
    pub closed spec fn pact_dir_name(&self) -> Seq<char> {
        self.pact_dir@
    }

    /// The history table: records of the reserved collection.
    pub open spec fn history_map(&self) -> Map<Seq<char>, VectorRecordModel> {
        coll_records(self.vectors(), self.mcoll())
    }

    /// Whether a migration is recorded in the history exactly as it
    /// serializes.
    pub open spec fn recorded(&self, m: SchemaMigrationModel) -> bool {
        &&& self.history_map().contains_key(version_key(m.version))
        &&& self.history_map()[version_key(m.version)] == migration_record(m)
    }

    /// Whether some history record denotes a migration with version `v`.
    pub open spec fn dep_present(&self, v: Version) -> bool {
        dep_present_in(self.history_map(), v)
    }

    /// Whether the history is small enough for one full scan to see all
    /// of it.
    pub open spec fn small_history(&self) -> bool {
        &&& self.history_map().dom().finite()
        &&& self.history_map().dom().len() <= 1000
    }

    /// A manager over the given backend, with the default reserved
    /// collection name and contract directory.
    pub fn new(adapter: T) -> (r: SchemaMigrationManager<T>)
        ensures
            r.collections() == adapter.collections_view(),
            r.vectors() == adapter.vectors_view(),
            r.mcoll() == "_tyl_migrations"@,
            r.pact_dir_name() == "./pacts"@,
    {
        SchemaMigrationManager {
            adapter,
            migration_collection: make_string("_tyl_migrations"),
            pact_dir: make_string("./pacts"),
        }
    }

    /// Use a custom reserved collection name.
    pub fn with_migration_collection(self, collection_name: String) -> (r: SchemaMigrationManager<
        T,
    >)
        ensures
            r.collections() == self.collections(),
            r.vectors() == self.vectors(),
            r.mcoll() == collection_name@,
            r.pact_dir_name() == self.pact_dir_name(),
    {
        let mut m = self;
        m.migration_collection = collection_name;
        m
    }

    /// Use a custom contract-artifact directory.
    pub fn with_pact_dir(self, dir: String) -> (r: SchemaMigrationManager<T>)
        ensures
            r.collections() == self.collections(),
            r.vectors() == self.vectors(),
            r.mcoll() == self.mcoll(),
            r.pact_dir_name() == dir@,
    {
        let mut m = self;
        m.pact_dir = dir;
        m
    }

    /// Idempotently ensure the reserved history collection exists: an
    /// "already exists" outcome is success.
    pub fn initialize(&mut self) -> (r: Result<(), VectorError>)
        ensures
            final(self).mcoll() == old(self).mcoll(),
            r is Ok ==> final(self).collections().contains_key(old(self).mcoll()),
            r is Ok && !old(self).collections().contains_key(old(self).mcoll()) ==> final(self).vectors() == old(self).vectors().insert(old(self).mcoll(), Map::empty()),
            r is Ok && !old(self).collections().contains_key(old(self).mcoll()) ==> final(self).collections() == old(self).collections().insert(
                old(self).mcoll(),
                (CollectionConfigModel {
                    name: old(self).mcoll(),
                    dimension: 256,
                    distance_metric: DistanceMetric::Cosine,
                }),
            ),
            r is Ok && old(self).collections().contains_key(old(self).mcoll()) ==> (final(self).collections() == old(self).collections() && final(self).vectors() == old(self).vectors()),
            r is Err ==> (final(self).collections() == old(self).collections() && final(self).vectors() == old(self).vectors()),
    {
        let name = self.migration_collection.clone();
        let config = match CollectionConfig::new(name, 256, DistanceMetric::Cosine) {
            Ok(c) => c,
            Err(e) => {
                return Err(e);
            },
        };
        match self.adapter.create_collection(config) {
            Ok(()) => Ok(()),
            Err(e) => {
                match self.adapter.get_collection_info(self.migration_collection.as_str()) {
                    Ok(Some(_)) => Ok(()),
                    Ok(None) => Err(e),
                    Err(e2) => Err(e2),
                }
            },
        }
    }

    /// Compare an operation's outcome class against the expected class:
    /// success matches `Success`, failure matches `Error` or `NotFound`,
    /// and any other combination is a contract mismatch.
    fn validate_operation_result<R>(&self, result: Result<R, VectorError>, expected_response:
        &VectorResponse) -> (r: Result<(), VectorError>)
        ensures
            r is Ok <==> ((result is Ok && expected_response.status == ResponseStatus::Success)
                || (result is Err && (expected_response.status == ResponseStatus::Error
                || expected_response.status == ResponseStatus::NotFound))),
            r matches Err(e) ==> e matches VectorError::ContractMismatch { .. },
    {
        match (&result, &expected_response.status) {
            (Ok(_), ResponseStatus::Success) => Ok(()),
            (Err(_), ResponseStatus::Error) => Ok(()),
            (Err(_), ResponseStatus::NotFound) => Ok(()),
            (Ok(_), ResponseStatus::Error) => Err(VectorError::ContractMismatch {
                message: make_string("expected error but operation succeeded"),
            }),
            (Ok(_), ResponseStatus::NotFound) => Err(VectorError::ContractMismatch {
                message: make_string("expected not found but operation succeeded"),
            }),
            (Err(_), ResponseStatus::Success) => Err(VectorError::ContractMismatch {
                message: make_string("expected success but operation failed"),
            }),
        }
    }

    /// Apply one collection change. Creation and deletion delegate to
    /// the backend; index changes are accepted without a backend call
    /// (the backend manages indexing automatically); configuration
    /// updates and renames always fail, since the backend supports
    /// neither.
    fn apply_collection_change(&mut self, change: &CollectionChange) -> (r: Result<
        ChangeResult,
        VectorError,
    >)
        ensures
            final(self).mcoll() == old(self).mcoll(),
            r matches Ok(cr) ==> cr@ == change_outcome(change@),
            r is Ok ==> (final(self).collections() == apply_change_cols(
                old(self).collections(),
                change@,
            ) && final(self).vectors() == apply_change_vecs(old(self).vectors(), change@)),
            r is Err ==> (final(self).collections() == old(self).collections() && final(self).vectors() == old(self).vectors()),
            change@ matches CollectionChangeModel::UpdateCollection { .. } ==> r is Err,
            change@ matches CollectionChangeModel::RenameCollection { .. } ==> r is Err,
            change@ matches CollectionChangeModel::AddIndex { .. } ==> r is Ok,
            change@ matches CollectionChangeModel::RemoveIndex { .. } ==> r is Ok,
    {
        match change {
            CollectionChange::CreateCollection(config) => {
                let cfg = config.clone_config();
                match self.adapter.create_collection(cfg) {
                    Ok(()) => Ok(ChangeResult::CollectionCreated(config.name.clone())),
                    Err(e) => Err(e),
                }
            },
            CollectionChange::DeleteCollection(name) => {
                match self.adapter.delete_collection(name.as_str()) {
                    Ok(()) => Ok(ChangeResult::CollectionDeleted(name.clone())),
                    Err(e) => Err(e),
                }
            },
            CollectionChange::UpdateCollection { name, .. } => Err(VectorError::Validation {
                field: make_string("update_collection"),
                message: make_string("collection update not supported - requires manual migration"),
            }),
            CollectionChange::RenameCollection { .. } => Err(VectorError::Validation {
                field: make_string("rename_collection"),
                message: make_string("collection rename requires manual migration"),
            }),
            CollectionChange::AddIndex { collection, field, index_type } => Ok(
                ChangeResult::IndexAdded {
                    collection: collection.clone(),
                    field: field.clone(),
                    index_type: *index_type,
                },
            ),
            CollectionChange::RemoveIndex { collection, field } => Ok(ChangeResult::IndexRemoved {
                collection: collection.clone(),
                field: field.clone(),
            }),
        }
    }

    /// Apply the reverse of one change: a creation reverses to deleting
    /// the collection; a deletion cannot be reversed (the data is gone
    /// without a backup) and fails; everything else is a no-op.
    fn apply_reverse_change(&mut self, change: &CollectionChange) -> (r: Result<(), VectorError>)
        ensures
            final(self).mcoll() == old(self).mcoll(),
            r is Ok ==> (final(self).collections() == reverse_change_cols(
                old(self).collections(),
                change@,
            ) && final(self).vectors() == reverse_change_vecs(old(self).vectors(), change@)),
            r is Err ==> (final(self).collections() == old(self).collections() && final(self).vectors() == old(self).vectors()),
            change@ matches CollectionChangeModel::DeleteCollection { .. } ==> r is Err,
            !(change@ matches CollectionChangeModel::CreateCollection { .. }) && !(change@
                matches CollectionChangeModel::DeleteCollection { .. }) ==> r is Ok,
    {
        match change {
            CollectionChange::CreateCollection(config) => {
                self.adapter.delete_collection(config.name.as_str())
            },
            CollectionChange::DeleteCollection(name) => Err(VectorError::Validation {
                field: make_string("rollback"),
                message: make_string("cannot recreate a deleted collection without a backup"),
            }),
            _ => Ok(()),
        }
    }

    /// Persist a migration in the history, keyed by its rendered
    /// version.
    fn record_migration(&mut self, migration: SchemaMigration) -> (r: Result<(), VectorError>)
        ensures
            final(self).mcoll() == old(self).mcoll(),
            final(self).collections() == old(self).collections(),
            r is Ok ==> final(self).vectors() == old(self).vectors().insert(
                old(self).mcoll(),
                coll_records(old(self).vectors(), old(self).mcoll()).insert(
                    version_key(migration@.version),
                    migration_record(migration@),
                ),
            ),
            r is Err ==> final(self).vectors() == old(self).vectors(),
    {
        let id = migration.version.render();
        let ghost mm = migration@;
        let payload = migration_to_json(migration);
        let mut metadata: Vec<(String, JsonValue)> = Vec::new();
        metadata.push((make_string("migration"), payload));
        metadata.push(
            (make_string("type"), JsonValue::Str(make_string("schema_migration"))),
        );
        let mut embedding: Vec<u32> = Vec::new();
        let mut i: usize = 0;
        while i < 256
            invariant
                i <= 256,
                embedding@.len() == i,
                forall|j: int| 0 <= j < i ==> #[trigger] embedding@[j] == 0u32,
            decreases 256 - i,
        {
            embedding.push(0u32);
            i += 1;
        }
        let record = Vector::with_metadata(id, embedding, metadata);
        proof {
            crate::json::lemma_fields_model(metadata@);
            assert(record@ =~~= migration_record(mm)) by {
                assert(record@.embedding =~= migration_record(mm).embedding);
                assert(record@.metadata =~= migration_record(mm).metadata);
            }
        }
        let coll = self.migration_collection.clone();
        self.adapter.store_vector(coll.as_str(), record)
    }

    /// Fetch and decode the history record of one version.
    fn get_migration_record(&self, version: &Version) -> (r: Result<SchemaMigration, VectorError>)
        ensures
            r matches Ok(m) ==> (self.history_map().contains_key(version_key(*version))
                && rec_migration(self.history_map()[version_key(*version)]) == Some(m@)),
            r matches Err(e) ==> (e matches VectorError::NotFound { .. }
                ==> (!self.history_map().contains_key(version_key(*version)) || fields_find(
                self.history_map()[version_key(*version)].metadata,
                "migration"@,
            ) is None)),
    {
        let id = version.render();
        let found = match self.adapter.get_vector(self.migration_collection.as_str(), id.as_str())
        {
            Ok(o) => o,
            Err(e) => {
                return Err(VectorError::StorageFailed {
                    message: make_string("failed to read the migration record"),
                });
            },
        };
        match found {
            Some(v) => {
                proof {
                    crate::json::lemma_fields_model(v.metadata@);
                }
                match fields_get(&v.metadata, &make_string("migration")) {
                    Some(payload) => match migration_from_json(payload) {
                        Some(m) => Ok(m),
                        None => Err(VectorError::StorageFailed {
                            message: make_string("invalid migration data"),
                        }),
                    },
                    None => Err(VectorError::NotFound {
                        resource: make_string("migration"),
                        id,
                    }),
                }
            },
            None => Err(VectorError::NotFound {
                resource: make_string("migration"),
                id,
            }),
        }
    }

    /// Remove the history record of one version.
    fn remove_migration_record(&mut self, version: &Version) -> (r: Result<(), VectorError>)
        ensures
            final(self).mcoll() == old(self).mcoll(),
            final(self).collections() == old(self).collections(),
            r is Ok ==> final(self).vectors() == old(self).vectors().insert(
                old(self).mcoll(),
                coll_records(old(self).vectors(), old(self).mcoll()).remove(version_key(*version)),
            ),
            r is Err ==> final(self).vectors() == old(self).vectors(),
    {
        let id = version.render();
        let coll = self.migration_collection.clone();
        self.adapter.delete_vector(coll.as_str(), id.as_str())
    }
}

/// Whether some record of the history table denotes this migration.
pub open spec fn denotes_some_record(
    hm: Map<Seq<char>, VectorRecordModel>,
    m: SchemaMigration,
) -> bool {
    exists|id: Seq<char>|
        #[trigger] hm.contains_key(id) && rec_migration(hm[id]) == Some(m@)
}

/// Whether a decoded migration appears in a history read.
pub open spec fn appears_in(hist: Seq<SchemaMigration>, om: Option<SchemaMigrationModel>) -> bool {
    exists|i: int| 0 <= i < hist.len() && Some((#[trigger] hist[i])@) == om
}

/// Every entry of a history read denotes some record of the history
/// table.
pub open spec fn history_sound(
    hm: Map<Seq<char>, VectorRecordModel>,
    hist: Seq<SchemaMigration>,
) -> bool {
    forall|i: int| 0 <= i < hist.len() ==> #[trigger] denotes_some_record(hm, hist[i])
}

/// Every decodable record of the history table appears in the read.
pub open spec fn history_complete(
    hm: Map<Seq<char>, VectorRecordModel>,
    hist: Seq<SchemaMigration>,
) -> bool {
    forall|id: Seq<char>|
        (hm.contains_key(id) && rec_migration(#[trigger] hm[id]) is Some) ==> appears_in(
            hist,
            rec_migration(hm[id]),
        )
}

/// LAW: distinct versions never collide on one history key, so
/// applying migrations with distinct versions yields distinct records
/// and the history grows by one record per recorded migration.
pub proof fn lemma_distinct_versions_distinct_keys(a: Version, b: Version)
    requires
        a != b,
    ensures
        version_key(a) != version_key(b),
{
    if version_key(a) == version_key(b) {
        crate::version::lemma_version_string_injective(a, b);
    }
}

/// Ascending version order (ties allowed).
pub open spec fn sorted_by_version(s: Seq<SchemaMigration>) -> bool {
    forall|i: int, j: int|
        0 <= i < j < s.len() ==> (#[trigger] s[i])@.version.spec_le((#[trigger] s[j])@.version)
}

/// A vector of `n` zero bit-patterns (a placeholder embedding).
fn zero_bits(n: usize) -> (r: Vec<u32>)
    ensures
        r@.len() == n,
        forall|j: int| 0 <= j < n ==> #[trigger] r@[j] == 0u32,
{
    let mut out: Vec<u32> = Vec::new();
    let mut i: usize = 0;
    while i < n
        invariant
            i <= n,
            out@.len() == i,
            forall|j: int| 0 <= j < i ==> #[trigger] out@[j] == 0u32,
        decreases n - i,
    {
        out.push(0u32);
        i += 1;
    }
    out
}

/// Insert a migration into a version-sorted list, keeping it sorted.
fn insert_sorted(migrations: &mut Vec<SchemaMigration>, m: SchemaMigration)
    requires
        sorted_by_version(old(migrations)@),
    ensures
        sorted_by_version(final(migrations)@),
        exists|p: int|
            0 <= p <= old(migrations)@.len() && final(migrations)@ == #[trigger] old(
                migrations,
            )@.insert(p, m),
{
    let mut pos: usize = 0;
    while pos < migrations.len() && !m.version.lt(&migrations[pos].version)
        invariant
            pos <= migrations@.len(),
            migrations@ == old(migrations)@,
            forall|j: int|
                0 <= j < pos ==> (#[trigger] migrations@[j])@.version.spec_le(m.version),
        decreases migrations.len() - pos,
    {
        pos += 1;
    }
    let ghost before = migrations@;
    let ghost p = pos as int;
    migrations.insert(pos, m);
    proof {
        assert(migrations@ == before.insert(p, m));
        assert forall|i: int, j: int|
            0 <= i < j < migrations@.len() implies (#[trigger] migrations@[i])@.version.spec_le(
            (#[trigger] migrations@[j])@.version,
        ) by {
            if j < p {
                assert(migrations@[i] == before[i]);
                assert(migrations@[j] == before[j]);
            } else if j == p {
                assert(migrations@[i] == before[i]);
            } else {
                assert(migrations@[j] == before[j - 1]);
                if i < p {
                    assert(migrations@[i] == before[i]);
                    assert(before[i]@.version.spec_le(before[j - 1]@.version));
                } else if i == p {
                    assert(p < before.len());
                    assert(m.version.spec_lt(before[p]@.version));
                    if p < j - 1 {
                        assert(before[p]@.version.spec_le(before[j - 1]@.version));
                    }
                } else {
                    assert(migrations@[i] == before[i - 1]);
                }
            }
        }
    }
}

impl<T> SchemaMigrationManager<T> where T: VectorStore + VectorCollectionManager {
    /// Read the whole migration history back: every record of the
    /// reserved collection whose payload decodes, sorted ascending by
    /// version. This is a full scan; when the history is small enough to
    /// fit the scan limit, it is complete.
    pub fn get_migration_history(&self) -> (r: Result<Vec<SchemaMigration>, VectorError>)
        ensures
            r matches Ok(hist) ==> {
                &&& sorted_by_version(hist@)
                &&& history_sound(self.history_map(), hist@)
                &&& (self.small_history() ==> history_complete(self.history_map(), hist@))
                &&& (self.small_history() ==> hist@.len() <= self.history_map().dom().len())
            },
    {
        let params = SearchParams::with_limit(1000);
        let query = zero_bits(256);
        let results = match self.adapter.search_similar(
            self.migration_collection.as_str(),
            query,
            params,
        ) {
            Ok(rs) => rs,
            Err(e) => {
                return Err(e);
            },
        };
        let ghost hm = self.history_map();
        proof {
            assert(hm == self.vectors()[self.mcoll()]);
        }
        let mut migrations: Vec<SchemaMigration> = Vec::new();
        let mut i: usize = 0;
        while i < results.len()
            invariant
                i <= results@.len(),
                hm == self.history_map(),
                forall|a: int|
                    0 <= a < results@.len() ==> {
                        let rec = (#[trigger] results@[a])@.vector;
                        &&& hm.contains_key(rec.id)
                        &&& hm[rec.id] == rec
                    },
                sorted_by_version(migrations@),
                history_sound(hm, migrations@),
                migrations@.len() <= i,
                forall|a: int|
                    0 <= a < i ==> (rec_migration((#[trigger] results@[a])@.vector) is Some
                        ==> appears_in(migrations@, rec_migration(results@[a]@.vector))),
            decreases results.len() - i,
        {
            let rec = &results[i].vector;
            proof {
                crate::json::lemma_fields_model(rec.metadata@);
            }
            let key = make_string("migration");
            let decoded: Option<SchemaMigration> = match fields_get(&rec.metadata, &key) {
                Some(payload) => migration_from_json(payload),
                None => None,
            };
            match decoded {
                Some(m) => {
                    proof {
                        assert(rec_migration(rec@) == Some(m@));
                    }
                    let ghost before = migrations@;
                    insert_sorted(&mut migrations, m);
                    proof {
                        let p = choose|p: int|
                            0 <= p <= before.len() && migrations@ == #[trigger] before.insert(
                                p,
                                m,
                            );
                        assert forall|k: int|
                            0 <= k < migrations@.len() implies #[trigger] denotes_some_record(
                            hm,
                            migrations@[k],
                        ) by {
                            if k < p {
                                assert(migrations@[k] == before[k]);
                                assert(denotes_some_record(hm, before[k]));
                            } else if k == p {
                                assert(migrations@[k] == m);
                                assert(hm.contains_key(rec@.id) && rec_migration(hm[rec@.id])
                                    == Some(m@));
                            } else {
                                assert(migrations@[k] == before[k - 1]);
                                assert(denotes_some_record(hm, before[k - 1]));
                            }
                        }
                        assert forall|a: int|
                            0 <= a < i + 1 implies (rec_migration(
                            (#[trigger] results@[a])@.vector,
                        ) is Some ==> appears_in(
                            migrations@,
                            rec_migration(results@[a]@.vector),
                        )) by {
                            if a < i {
                                if rec_migration(results@[a]@.vector) is Some {
                                    assert(appears_in(before, rec_migration(results@[a]@.vector)));
                                    let k0 = choose|k0: int|
                                        0 <= k0 < before.len() && Some((#[trigger] before[k0])@)
                                            == rec_migration(results@[a]@.vector);
                                    if k0 < p {
                                        assert(migrations@[k0] == before[k0]);
                                        assert(Some((migrations@[k0])@) == rec_migration(
                                            results@[a]@.vector,
                                        ));
                                    } else {
                                        assert(migrations@[k0 + 1] == before[k0]);
                                        assert(Some((migrations@[k0 + 1])@) == rec_migration(
                                            results@[a]@.vector,
                                        ));
                                    }
                                }
                            } else {
                                assert(migrations@[p] == m);
                                assert(Some((migrations@[p])@) == rec_migration(
                                    results@[a]@.vector,
                                ));
                            }
                        }
                    }
                },
                None => {
                    proof {
                        assert(!(rec_migration(rec@) is Some));
                    }
                },
            }
            i += 1;
        }
        proof {
            if self.small_history() {
                assert(results@.len() == hm.dom().len());
                assert(migrations@.len() <= hm.dom().len());
                let recs = self.vectors()[self.mcoll()];
                let sids = Seq::new(results@.len(), |a: int| results@[a]@.vector.id);
                assert(sids.no_duplicates()) by {
                    assert(forall|a: int, b: int|
                        0 <= a < b < sids.len() ==> sids[a] != sids[b]);
                }
                sids.unique_seq_to_set();
                assert(sids.to_set().subset_of(hm.dom())) by {
                    assert forall|x: Seq<char>| sids.to_set().contains(x) implies hm.dom().contains(
                        x,
                    ) by {
                        let a = choose|a: int| 0 <= a < sids.len() && sids[a] == x;
                        assert(hm.contains_key(results@[a]@.vector.id));
                    }
                }
                assert(sids.to_set().len() == hm.dom().len());
                assert forall|id: Seq<char>|
                    hm.contains_key(id) && rec_migration(#[trigger] hm[id]) is Some implies exists|
                    k: int,
                |
                    0 <= k < migrations@.len() && Some((#[trigger] migrations@[k])@)
                        == rec_migration(hm[id]) by {
                    assert(hm.dom().contains(id));
                    assert(sids.to_set().contains(id)) by {
                        if !sids.to_set().contains(id) {
                            assert(sids.to_set().subset_of(hm.dom().remove(id)));
                            vstd::set_lib::lemma_len_subset(sids.to_set(), hm.dom().remove(id));
                            assert(hm.dom().remove(id).len() == hm.dom().len() - 1);
                            assert(false);
                        }
                    }
                    let a = choose|a: int| 0 <= a < sids.len() && sids[a] == id;
                    assert(hm[id] == results@[a]@.vector);
                    assert(rec_migration(results@[a]@.vector) is Some);
                    assert(appears_in(migrations@, rec_migration(hm[id])));
                }
                assert(history_complete(hm, migrations@));
            }
        }
        Ok(migrations)
    }

    /// Check that every declared dependency is present in the persisted
    /// history; fails with a missing-dependency error naming the first
    /// absent version.
    fn validate_dependencies(&self, migration: &SchemaMigration) -> (r: Result<(), VectorError>)
        ensures
            r is Ok ==> forall|k: int|
                0 <= k < migration@.metadata.dependencies.len() ==> self.dep_present(
                    #[trigger] migration@.metadata.dependencies[k],
                ),
            r matches Err(e) ==> (e matches VectorError::MissingDependency { version } ==> (
            migration@.metadata.dependencies.contains(version) && (self.small_history()
                ==> !self.dep_present(version)))),
            r matches Err(e) ==> (e matches VectorError::MissingDependency { .. } || e
                matches VectorError::StorageFailed { .. }),
    {
        let history = match self.get_migration_history() {
            Ok(h) => h,
            Err(_) => {
                return Err(VectorError::StorageFailed {
                    message: make_string("failed to read the migration history"),
                });
            },
        };
        let mut di: usize = 0;
        while di < migration.metadata.dependencies.len()
            invariant
                di <= migration.metadata.dependencies@.len(),
                forall|k: int| 0 <= k < di ==> self.dep_present(
                    #[trigger] migration@.metadata.dependencies[k],
                ),
                sorted_by_version(history@),
                history_sound(self.history_map(), history@),
                self.small_history() ==> history_complete(self.history_map(), history@),
            decreases migration.metadata.dependencies@.len() - di,
        {
            let dep = migration.metadata.dependencies[di];
            let mut found = false;
            let mut hi: usize = 0;
            while hi < history.len()
                invariant
                    hi <= history@.len(),
                    found ==> exists|i: int|
                        0 <= i < history@.len() && (#[trigger] history@[i])@.version == dep,
                    !found ==> forall|i: int|
                        0 <= i < hi ==> (#[trigger] history@[i])@.version != dep,
                decreases history.len() - hi,
            {
                if history[hi].version.eq_version(&dep) {
                    found = true;
                }
                hi += 1;
            }
            if !found {
                proof {
                    assert(migration@.metadata.dependencies[di as int] == dep);
                    assert(migration@.metadata.dependencies.contains(dep));
                    if self.small_history() && self.dep_present(dep) {
                        let id = choose|id: Seq<char>|
                            #[trigger] self.history_map().contains_key(id) && (match rec_migration(
                                self.history_map()[id],
                            ) {
                                Some(m) => m.version == dep,
                                None => false,
                            });
                        assert(rec_migration(self.history_map()[id]) is Some);
                        assert(appears_in(history@, rec_migration(self.history_map()[id])));
                        let i = choose|i: int|
                            0 <= i < history@.len() && Some((#[trigger] history@[i])@)
                                == rec_migration(self.history_map()[id]);
                        assert(history@[i]@.version == dep);
                        assert(false);
                    }
                }
                return Err(VectorError::MissingDependency { version: dep });
            }
            proof {
                let i = choose|i: int|
                    0 <= i < history@.len() && (#[trigger] history@[i])@.version == dep;
                assert(denotes_some_record(self.history_map(), history@[i]));
                let id = choose|id: Seq<char>|
                    #[trigger] self.history_map().contains_key(id) && rec_migration(
                        self.history_map()[id],
                    ) == Some((history@[i])@);
                assert(self.dep_present(dep));
            }
            di += 1;
        }
        Ok(())
    }
}

impl<T> SchemaMigrationManager<T> where T: VectorStore + VectorCollectionManager {
    /// Simulate one contract interaction against the live backend and
    /// compare the outcome class with the expected one. Operations with
    /// no simulation are accepted.
    fn validate_pact_interaction(&mut self, interaction: &PactInteraction) -> (r: Result<
        (),
        VectorError,
    >)
        ensures
            final(self).mcoll() == old(self).mcoll(),
            r matches Err(e) ==> e matches VectorError::ContractMismatch { .. },
            (interaction.request.operation == VectorOperation::GetVector
                || interaction.request.operation == VectorOperation::DeleteVector
                || interaction.request.operation == VectorOperation::DeleteCollection
                || interaction.request.operation == VectorOperation::ListCollections) ==> (r
                is Ok && final(self).collections() == old(self).collections() && final(self).vectors() == old(self).vectors()),
            interaction.request.operation == VectorOperation::SearchSimilar ==> (final(self).collections() == old(self).collections() && final(self).vectors() == old(self).vectors()),
            interaction.request.operation == VectorOperation::CreateCollection ==> {
                let created = final(self).collections() == old(self).collections().insert(
                    "test_migration"@,
                    probe_config(),
                ) && final(self).vectors() == old(self).vectors().insert(
                    "test_migration"@,
                    Map::empty(),
                ) && !old(self).collections().contains_key("test_migration"@);
                let untouched = final(self).collections() == old(self).collections() && final(self).vectors() == old(self).vectors();
                &&& (r is Ok && interaction.response.status == ResponseStatus::Success
                    ==> created)
                &&& (r is Ok && interaction.response.status != ResponseStatus::Success
                    ==> untouched)
                &&& (r is Err && interaction.response.status == ResponseStatus::Success
                    ==> untouched)
                &&& (r is Err && interaction.response.status != ResponseStatus::Success
                    ==> created)
            },
            interaction.request.operation == VectorOperation::StoreVector ==> {
                let coll = interaction.request.collection@;
                let stored = final(self).vectors() == old(self).vectors().insert(
                    coll,
                    coll_records(old(self).vectors(), coll).insert("test"@, probe_record()),
                ) && final(self).collections() == old(self).collections();
                let untouched = final(self).collections() == old(self).collections() && final(self).vectors() == old(self).vectors();
                &&& (r is Ok && interaction.response.status == ResponseStatus::Success
                    ==> stored)
                &&& (r is Ok && interaction.response.status != ResponseStatus::Success
                    ==> untouched)
                &&& (r is Err && interaction.response.status == ResponseStatus::Success
                    ==> untouched)
                &&& (r is Err && interaction.response.status != ResponseStatus::Success
                    ==> stored)
            },
            forall|n: Seq<char>|
                n != "test_migration"@ ==> (#[trigger] final(self).collections().contains_key(n)
                    == old(self).collections().contains_key(n) && (old(self).collections().contains_key(n) ==> final(self).collections()[n] == old(self).collections()[n])),
            forall|k: Seq<char>|
                k != "test"@ ==> (#[trigger] final(self).history_map().contains_key(k) ==> (old(self).history_map().contains_key(k) && final(self).history_map()[k] == old(self).history_map()[k])),
    {
        match interaction.request.operation {
            VectorOperation::CreateCollection => {
                proof {
                    reveal_strlit("test_migration");
                    assert("test_migration"@.len() == 14);
                }
                let cfg = match CollectionConfig::new(
                    make_string("test_migration"),
                    128,
                    DistanceMetric::Cosine,
                ) {
                    Ok(c) => c,
                    Err(e) => {
                        return Err(e);
                    },
                };
                let ghost prev_cols = self.collections();
                let ghost prev_vecs = self.vectors();
                let result = self.adapter.create_collection(cfg);
                proof {
                    if self.collections() != prev_cols {
                        assert(self.vectors() == prev_vecs.insert("test_migration"@, Map::empty()));
                    }
                }
                self.validate_operation_result(result, &interaction.response)
            },
            VectorOperation::StoreVector => {
                let test_vector = Vector::new(make_string("test"), zero_bits(128));
                proof {
                    assert(test_vector@.embedding =~= Seq::new(128, |i: int| 0u32));
                    assert(test_vector@ == probe_record());
                }
                let result = self.adapter.store_vector(
                    interaction.request.collection.as_str(),
                    test_vector,
                );
                self.validate_operation_result(result, &interaction.response)
            },
            VectorOperation::SearchSimilar => {
                let params = SearchParams::with_limit(5);
                let result = self.adapter.search_similar(
                    interaction.request.collection.as_str(),
                    zero_bits(128),
                    params,
                );
                match result {
                    Ok(_) => {
                        if !matches!(interaction.response.status, ResponseStatus::Success) {
                            Err(VectorError::ContractMismatch {
                                message: make_string("expected error but operation succeeded"),
                            })
                        } else {
                            Ok(())
                        }
                    },
                    Err(_) => {
                        if matches!(interaction.response.status, ResponseStatus::Success) {
                            Err(VectorError::ContractMismatch {
                                message: make_string("expected success but operation failed"),
                            })
                        } else {
                            Ok(())
                        }
                    },
                }
            },
            _ => Ok(()),
        }
    }

    /// Validate one contract: derive its document, then simulate each
    /// interaction in order.
    fn validate_single_pact_contract(&mut self, contract: &PactContract) -> (r: Result<
        (),
        VectorError,
    >)
        ensures
            final(self).mcoll() == old(self).mcoll(),
            r matches Err(e) ==> e matches VectorError::ContractMismatch { .. },
            forall|n: Seq<char>|
                n != "test_migration"@ ==> (#[trigger] final(self).collections().contains_key(n)
                    == old(self).collections().contains_key(n) && (old(self).collections().contains_key(n) ==> final(self).collections()[n] == old(self).collections()[n])),
            forall|k: Seq<char>|
                k != "test"@ ==> (#[trigger] final(self).history_map().contains_key(k) ==> (old(self).history_map().contains_key(k) && final(self).history_map()[k] == old(self).history_map()[k])),
    {
        let _content = self.generate_pact_content(contract);
        let mut i: usize = 0;
        while i < contract.interactions.len()
            invariant
                i <= contract.interactions@.len(),
                self.mcoll() == old(self).mcoll(),
                forall|n: Seq<char>|
                    n != "test_migration"@ ==> (#[trigger] self.collections().contains_key(n)
                        == old(self).collections().contains_key(n) && (old(self).collections().contains_key(n) ==> self.collections()[n] == old(self).collections()[n])),
                forall|k: Seq<char>|
                    k != "test"@ ==> (#[trigger] self.history_map().contains_key(k) ==> (old(self).history_map().contains_key(k) && self.history_map()[k] == old(self).history_map()[k])),
            decreases contract.interactions@.len() - i,
        {
            let ghost prev_cols = self.collections();
            let ghost prev_hm = self.history_map();
            match self.validate_pact_interaction(&contract.interactions[i]) {
                Ok(()) => {},
                Err(e) => {
                    return Err(e);
                },
            }
            proof {
                assert forall|n: Seq<char>|
                    n != "test_migration"@ implies (#[trigger] self.collections().contains_key(n)
                        == old(self).collections().contains_key(n) && (old(self).collections().contains_key(n) ==> self.collections()[n] == old(self).collections()[n])) by {
                    assert(self.collections().contains_key(n) == prev_cols.contains_key(n));
                }
                assert forall|k: Seq<char>|
                    k != "test"@ && #[trigger] self.history_map().contains_key(k) implies (old(self).history_map().contains_key(k) && self.history_map()[k] == old(self).history_map()[k]) by {
                    assert(prev_hm.contains_key(k) && self.history_map()[k] == prev_hm[k]);
                }
            }
            i += 1;
        }
        Ok(())
    }

    /// Validate every declared contract, in order. With no contracts
    /// this is a no-op that touches nothing.
    fn validate_pact_contracts(&mut self, contracts: &Vec<PactContract>) -> (r: Result<
        (),
        VectorError,
    >)
        ensures
            final(self).mcoll() == old(self).mcoll(),
            r matches Err(e) ==> e matches VectorError::ContractMismatch { .. },
            contracts@.len() == 0 ==> (r is Ok && final(self).collections() == old(self).collections() && final(self).vectors() == old(self).vectors()),
            forall|n: Seq<char>|
                n != "test_migration"@ ==> (#[trigger] final(self).collections().contains_key(n)
                    == old(self).collections().contains_key(n) && (old(self).collections().contains_key(n) ==> final(self).collections()[n] == old(self).collections()[n])),
            forall|k: Seq<char>|
                k != "test"@ ==> (#[trigger] final(self).history_map().contains_key(k) ==> (old(self).history_map().contains_key(k) && final(self).history_map()[k] == old(self).history_map()[k])),
    {
        let mut i: usize = 0;
        while i < contracts.len()
            invariant
                i <= contracts@.len(),
                self.mcoll() == old(self).mcoll(),
                contracts@.len() == 0 ==> (self.collections() == old(self).collections()
                    && self.vectors() == old(self).vectors()),
                forall|n: Seq<char>|
                    n != "test_migration"@ ==> (#[trigger] self.collections().contains_key(n)
                        == old(self).collections().contains_key(n) && (old(self).collections().contains_key(n) ==> self.collections()[n] == old(self).collections()[n])),
                forall|k: Seq<char>|
                    k != "test"@ ==> (#[trigger] self.history_map().contains_key(k) ==> (old(self).history_map().contains_key(k) && self.history_map()[k] == old(self).history_map()[k])),
            decreases contracts@.len() - i,
        {
            let ghost prev_cols = self.collections();
            let ghost prev_hm = self.history_map();
            match self.validate_single_pact_contract(&contracts[i]) {
                Ok(()) => {},
                Err(e) => {
                    return Err(e);
                },
            }
            proof {
                assert forall|n: Seq<char>|
                    n != "test_migration"@ implies (#[trigger] self.collections().contains_key(n)
                        == old(self).collections().contains_key(n) && (old(self).collections().contains_key(n) ==> self.collections()[n] == old(self).collections()[n])) by {
                    assert(self.collections().contains_key(n) == prev_cols.contains_key(n));
                }
                assert forall|k: Seq<char>|
                    k != "test"@ && #[trigger] self.history_map().contains_key(k) implies (old(self).history_map().contains_key(k) && self.history_map()[k] == old(self).history_map()[k]) by {
                    assert(prev_hm.contains_key(k) && self.history_map()[k] == prev_hm[k]);
                }
            }
            i += 1;
        }
        Ok(())
    }

    /// Apply a migration: validate its contracts, check its
    /// dependencies against the persisted history, apply each change in
    /// declared order, and record the migration. Each gate must pass
    /// before the next runs; a change failure leaves the earlier changes
    /// of this migration applied.
    pub fn apply_migration(&mut self, migration: SchemaMigration) -> (r: Result<
        MigrationResult,
        VectorError,
    >)
        ensures
            final(self).mcoll() == old(self).mcoll(),
            r matches Ok(res) ==> {
                &&& res.version == migration.version
                &&& res.pact_validation_passed == true
                &&& res.applied_changes@.len() == migration@.collection_changes.len()
                &&& (forall|k: int|
                    0 <= k < migration@.collection_changes.len() ==> (
                    #[trigger] res.applied_changes@[k])@ == change_outcome(
                        migration@.collection_changes[k],
                    ))
                &&& (forall|k: int|
                    0 <= k < migration@.collection_changes.len() ==> (!((
                    #[trigger] migration@.collection_changes[k])
                        matches CollectionChangeModel::UpdateCollection { .. }) && !(
                    migration@.collection_changes[k]
                        matches CollectionChangeModel::RenameCollection { .. })))
                &&& final(self).recorded(migration@)
            },
            migration@.pact_contracts.len() == 0 && r is Ok ==> (final(self).collections()
                == apply_all_cols(old(self).collections(), migration@.collection_changes) && final(self).vectors() == ({
                let midv = apply_all_vecs(old(self).vectors(), migration@.collection_changes);
                midv.insert(
                    old(self).mcoll(),
                    coll_records(midv, old(self).mcoll()).insert(
                        version_key(migration@.version),
                        migration_record(migration@),
                    ),
                )
            })),
            migration@.pact_contracts.len() == 0 ==> (r matches Err(e) ==> (e
                matches VectorError::MissingDependency { version } ==> (final(self).collections()
                == old(self).collections() && final(self).vectors() == old(self).vectors()
                && migration@.metadata.dependencies.contains(version) && (final(self).small_history() ==> !final(self).dep_present(version))))),
            migration@.pact_contracts.len() == 0 && r is Ok ==> (forall|k: int|
                0 <= k < migration@.metadata.dependencies.len() ==> old(self).dep_present(
                    #[trigger] migration@.metadata.dependencies[k],
                )),
            migration@.pact_contracts.len() == 0 && r is Err ==> (exists|p: int|
                0 <= p <= migration@.collection_changes.len() && final(self).collections()
                    == #[trigger] apply_all_cols(
                    old(self).collections(),
                    migration@.collection_changes.take(p),
                ) && final(self).vectors() == apply_all_vecs(
                    old(self).vectors(),
                    migration@.collection_changes.take(p),
                )),
            migration@.pact_contracts.len() == 0 && (exists|k: int|
                0 <= k < migration@.metadata.dependencies.len() && !old(self).dep_present(
                    #[trigger] migration@.metadata.dependencies[k],
                )) ==> (r is Err && final(self).collections() == old(self).collections()
                && final(self).vectors() == old(self).vectors()),
            r matches Err(e) ==> (e matches VectorError::ContractMismatch { .. } ==> (
            migration@.pact_contracts.len() > 0 && (forall|n: Seq<char>|
                n != "test_migration"@ ==> (#[trigger] final(self).collections().contains_key(n)
                    == old(self).collections().contains_key(n) && (old(self).collections().contains_key(n) ==> final(self).collections()[n] == old(self).collections()[n])))
                && (final(self).history_map().contains_key(version_key(migration@.version))
                ==> (old(self).history_map().contains_key(version_key(migration@.version))
                && final(self).history_map()[version_key(migration@.version)] == old(self).history_map()[version_key(migration@.version)])))),
    {
        let ghost m0 = migration@;
        match self.validate_pact_contracts(&migration.pact_contracts) {
            Ok(()) => {},
            Err(e) => {
                proof {
                    assert(m0.pact_contracts.len() == migration.pact_contracts@.len());
                    lemma_version_key_not_probe(migration.version);
                }
                return Err(e);
            },
        }
        match self.validate_dependencies(&migration) {
            Ok(()) => {},
            Err(e) => {
                proof {
                    assert(m0.pact_contracts.len() == migration.pact_contracts@.len());
                    if m0.pact_contracts.len() == 0 {
                        assert(m0.collection_changes.take(0)
                            =~= Seq::<CollectionChangeModel>::empty());
                        assert(apply_all_cols(
                            old(self).collections(),
                            m0.collection_changes.take(0),
                        ) == old(self).collections());
                        assert(apply_all_vecs(
                            old(self).vectors(),
                            m0.collection_changes.take(0),
                        ) == old(self).vectors());
                        assert(self.collections() == old(self).collections());
                        assert(self.vectors() == old(self).vectors());
                    }
                }
                return Err(e);
            },
        }
        proof {
            if m0.pact_contracts.len() == 0 {
                assert(m0.pact_contracts.len() == migration.pact_contracts@.len());
                assert(self.history_map() == old(self).history_map());
                assert forall|k: int|
                    0 <= k < m0.metadata.dependencies.len() implies old(self).dep_present(
                    #[trigger] m0.metadata.dependencies[k],
                ) by {
                    assert(dep_present_in(self.history_map(), m0.metadata.dependencies[k]));
                }
            }
        }
        let ghost base_cols = self.collections();
        let ghost base_vecs = self.vectors();
        let cs = &migration.collection_changes;
        let ghost csm = m0.collection_changes;
        proof {
            assert(csm.take(0) =~= Seq::<CollectionChangeModel>::empty());
        }
        let mut results: Vec<ChangeResult> = Vec::new();
        let mut i: usize = 0;
        while i < cs.len()
            invariant
                i <= cs@.len(),
                m0 == migration@,
                csm == crate::migration::changes_model(cs@),
                csm == m0.collection_changes,
                csm.len() == cs@.len(),
                forall|k: int| 0 <= k < cs@.len() ==> csm[k] == (#[trigger] cs@[k])@,
                self.mcoll() == old(self).mcoll(),
                results@.len() == i,
                forall|k: int| 0 <= k < i ==> (#[trigger] results@[k])@ == change_outcome(csm[k]),
                forall|k: int|
                    0 <= k < i ==> (!((#[trigger] csm[k])
                        matches CollectionChangeModel::UpdateCollection { .. }) && !(csm[k]
                        matches CollectionChangeModel::RenameCollection { .. })),
                self.collections() == apply_all_cols(base_cols, csm.take(i as int)),
                self.vectors() == apply_all_vecs(base_vecs, csm.take(i as int)),
                m0.pact_contracts.len() == 0 ==> (base_cols == old(self).collections()
                    && base_vecs == old(self).vectors()),
                m0.pact_contracts.len() == 0 ==> (forall|k: int|
                    0 <= k < m0.metadata.dependencies.len() ==> old(self).dep_present(
                        #[trigger] m0.metadata.dependencies[k],
                    )),
            decreases cs@.len() - i,
        {
            let cr = match self.apply_collection_change(&cs[i]) {
                Ok(cr) => cr,
                Err(e) => {
                    proof {
                        if m0.pact_contracts.len() == 0 {
                            assert(self.collections() == apply_all_cols(
                                old(self).collections(),
                                m0.collection_changes.take(i as int),
                            ));
                            assert(self.vectors() == apply_all_vecs(
                                old(self).vectors(),
                                m0.collection_changes.take(i as int),
                            ));
                        }
                    }
                    return Err(sanitize_backend_error(e));
                },
            };
            results.push(cr);
            proof {
                assert(csm.take(i + 1).drop_last() =~= csm.take(i as int));
                assert(csm.take(i + 1).last() == csm[i as int]);
            }
            i += 1;
        }
        proof {
            assert(csm.take(cs@.len() as int) =~= csm);
        }
        let version = migration.version;
        match self.record_migration(migration) {
            Ok(()) => {},
            Err(e) => {
                proof {
                    if m0.pact_contracts.len() == 0 {
                        assert(m0.collection_changes.take(csm.len() as int) =~= csm);
                        assert(self.collections() == apply_all_cols(
                            old(self).collections(),
                            m0.collection_changes.take(csm.len() as int),
                        ));
                        assert(self.vectors() == apply_all_vecs(
                            old(self).vectors(),
                            m0.collection_changes.take(csm.len() as int),
                        ));
                    }
                }
                return Err(sanitize_backend_error(e));
            },
        }
        Ok(MigrationResult { version, applied_changes: results, pact_validation_passed: true })
    }

    /// Roll a migration back, if its record marks it reversible: apply
    /// the reverse of each change in reverse declared order, then remove
    /// the history record. A deleted collection cannot be reversed, and
    /// a version with no record fails with a not-found error.
    pub fn rollback_migration(&mut self, version: Version) -> (r: Result<(), VectorError>)
        ensures
            final(self).mcoll() == old(self).mcoll(),
            r matches Err(e) ==> (e matches VectorError::NotFound { .. } ==> ((!old(self).history_map().contains_key(version_key(version)) || fields_find(
                old(self).history_map()[version_key(version)].metadata,
                "migration"@,
            ) is None) && final(self).collections() == old(self).collections() && final(self).vectors() == old(self).vectors())),
            !old(self).history_map().contains_key(version_key(version)) ==> (r is Err && final(self).collections() == old(self).collections() && final(self).vectors() == old(self).vectors()),
            r is Err ==> ((final(self).collections() == old(self).collections() && final(self).vectors() == old(self).vectors()) || (match rec_migration(
                old(self).history_map()[version_key(version)],
            ) {
                Some(m) => exists|k: int|
                    0 <= k <= m.collection_changes.len() && final(self).collections()
                        == #[trigger] reverse_from_cols(
                        old(self).collections(),
                        m.collection_changes,
                        k,
                    ) && final(self).vectors() == reverse_from_vecs(
                        old(self).vectors(),
                        m.collection_changes,
                        k,
                    ),
                None => false,
            })),
            (old(self).history_map().contains_key(version_key(version)) && (match rec_migration(
                old(self).history_map()[version_key(version)],
            ) {
                Some(m) => !m.metadata.reversible,
                None => false,
            })) ==> (r is Err && final(self).collections() == old(self).collections() && final(self).vectors() == old(self).vectors()),
            r is Ok ==> ({
                let k = version_key(version);
                let dm = rec_migration(old(self).history_map()[k]);
                &&& old(self).history_map().contains_key(k)
                &&& dm is Some
                &&& dm->Some_0.metadata.reversible
                &&& (forall|j: int|
                    0 <= j < dm->Some_0.collection_changes.len() ==> !((
                    #[trigger] dm->Some_0.collection_changes[j])
                        matches CollectionChangeModel::DeleteCollection { .. }))
                &&& final(self).collections() == reverse_from_cols(
                    old(self).collections(),
                    dm->Some_0.collection_changes,
                    0,
                )
                &&& final(self).vectors() == ({
                    let midv = reverse_from_vecs(
                        old(self).vectors(),
                        dm->Some_0.collection_changes,
                        0,
                    );
                    midv.insert(
                        old(self).mcoll(),
                        coll_records(midv, old(self).mcoll()).remove(k),
                    )
                })
            }),
    {
        let migration = match self.get_migration_record(&version) {
            Ok(m) => m,
            Err(e) => {
                return Err(e);
            },
        };
        let ghost dm = migration@;
        if !migration.metadata.reversible {
            return Err(VectorError::Validation {
                field: make_string("rollback"),
                message: make_string("migration is not reversible"),
            });
        }
        let cs = &migration.collection_changes;
        let ghost csm = dm.collection_changes;
        let ghost base_cols = self.collections();
        let ghost base_vecs = self.vectors();
        let mut i: usize = cs.len();
        while i > 0
            invariant
                i <= cs@.len(),
                csm == crate::migration::changes_model(cs@),
                csm.len() == cs@.len(),
                forall|k: int| 0 <= k < cs@.len() ==> csm[k] == (#[trigger] cs@[k])@,
                self.mcoll() == old(self).mcoll(),
                old(self).history_map().contains_key(version_key(version)),
                rec_migration(old(self).history_map()[version_key(version)]) == Some(dm),
                dm.metadata.reversible,
                csm == dm.collection_changes,
                base_cols == old(self).collections(),
                base_vecs == old(self).vectors(),
                forall|j: int|
                    i <= j < csm.len() ==> !((#[trigger] csm[j])
                        matches CollectionChangeModel::DeleteCollection { .. }),
                self.collections() == reverse_from_cols(base_cols, csm, i as int),
                self.vectors() == reverse_from_vecs(base_vecs, csm, i as int),
            decreases i,
        {
            i -= 1;
            match self.apply_reverse_change(&cs[i]) {
                Ok(()) => {},
                Err(e) => {
                    proof {
                        assert(self.collections() == reverse_from_cols(
                            old(self).collections(),
                            dm.collection_changes,
                            i + 1,
                        ));
                        assert(self.vectors() == reverse_from_vecs(
                            old(self).vectors(),
                            dm.collection_changes,
                            i + 1,
                        ));
                    }
                    return Err(sanitize_rollback_error(e));
                },
            }
        }
        match self.remove_migration_record(&version) {
            Ok(()) => {},
            Err(e) => {
                proof {
                    assert(self.collections() == reverse_from_cols(
                        old(self).collections(),
                        dm.collection_changes,
                        0,
                    ));
                    assert(self.vectors() == reverse_from_vecs(
                        old(self).vectors(),
                        dm.collection_changes,
                        0,
                    ));
                }
                return Err(sanitize_rollback_error(e));
            },
        }
        Ok(())
    }
}

/// Keep a backend failure during change application distinguishable
/// from the gates: only the dependency check reports a missing
/// dependency, and only contract validation reports a mismatch.
fn sanitize_backend_error(e: VectorError) -> (r: VectorError)
    ensures
        !(r matches VectorError::MissingDependency { .. }),
        !(r matches VectorError::ContractMismatch { .. }),
{
    match e {
        VectorError::MissingDependency { .. } => VectorError::StorageFailed {
            message: make_string("backend call failed"),
        },
        VectorError::ContractMismatch { .. } => VectorError::StorageFailed {
            message: make_string("backend call failed"),
        },
        other => other,
    }
}

/// Keep a mid-rollback backend failure distinguishable from "no such
/// migration": only the record lookup reports not-found.
fn sanitize_rollback_error(e: VectorError) -> (r: VectorError)
    ensures
        !(r matches VectorError::NotFound { .. }),
        !(r matches VectorError::Validation { .. }),
{
    match e {
        VectorError::NotFound { .. } => VectorError::StorageFailed {
            message: make_string("rollback step failed"),
        },
        VectorError::Validation { .. } => VectorError::StorageFailed {
            message: make_string("rollback step failed"),
        },
        other => other,
    }
}

/// The HTTP-style status code a contract outcome class maps to.
pub open spec fn status_code(s: ResponseStatus) -> i64 {
    match s {
        ResponseStatus::Success => 200,
        ResponseStatus::Error => 500,
        ResponseStatus::NotFound => 404,
    }
}

/// The request half of an interaction entry.
pub open spec fn pact_request_entry(r: crate::migration::VectorRequestModel) -> JsonModel {
    JsonModel::Obj(
        seq![
            ("method"@, JsonModel::Str("POST"@)),
            ("path"@, JsonModel::Str("/vector-operation"@)),
            ("body"@, crate::codec::request_json(r)),
        ],
    )
}

/// The expected-response half of an interaction entry.
pub open spec fn pact_response_entry(r: crate::migration::VectorResponseModel) -> JsonModel {
    JsonModel::Obj(
        seq![
            ("status"@, JsonModel::Int(status_code(r.status))),
            (
                "body"@,
                match r.data {
                    Some(v) => v,
                    None => JsonModel::Obj(Seq::empty()),
                },
            ),
        ],
    )
}

/// One interaction of a contract document.
pub open spec fn pact_interaction_entry(i: crate::migration::PactInteractionModel) -> JsonModel {
    JsonModel::Obj(
        seq![
            ("description"@, JsonModel::Str(i.description)),
            ("request"@, pact_request_entry(i.request)),
            ("response"@, pact_response_entry(i.response)),
        ],
    )
}

/// The derived contract document: consumer, provider, the interactions,
/// and the specification version tag.
pub open spec fn pact_content_json(c: crate::migration::PactContractModel) -> JsonModel {
    JsonModel::Obj(
        seq![
            ("consumer"@, JsonModel::Obj(seq![("name"@, JsonModel::Str(c.consumer))])),
            ("provider"@, JsonModel::Obj(seq![("name"@, JsonModel::Str(c.provider))])),
            (
                "interactions"@,
                JsonModel::Arr(
                    Seq::new(c.interactions.len(), |i: int| pact_interaction_entry(c.interactions[i])),
                ),
            ),
            (
                "metadata"@,
                JsonModel::Obj(
                    seq![
                        (
                            "pactSpecification"@,
                            JsonModel::Obj(seq![("version"@, JsonModel::Str("2.0.0"@))]),
                        ),
                    ],
                ),
            ),
        ],
    )
}

impl<T> SchemaMigrationManager<T> where T: VectorStore + VectorCollectionManager {
    /// Derive the contract document for one consumer contract.
    pub fn generate_pact_content(&self, contract: &PactContract) -> (r: JsonValue)
        ensures
            r@ == pact_content_json(contract@),
    {
        let ghost cm = contract@;
        let mut entries: Vec<JsonValue> = Vec::new();
        let mut i: usize = 0;
        while i < contract.interactions.len()
            invariant
                i <= contract.interactions@.len(),
                cm == contract@,
                cm.interactions.len() == contract.interactions@.len(),
                forall|k: int|
                    0 <= k < contract.interactions@.len() ==> cm.interactions[k] == (
                    #[trigger] contract.interactions@[k])@,
                entries@.len() == i,
                forall|k: int|
                    0 <= k < i ==> crate::json::json_model(#[trigger] entries@[k])
                        == pact_interaction_entry(cm.interactions[k]),
            decreases contract.interactions@.len() - i,
        {
            let interaction = &contract.interactions[i];
            let req = crate::migration::VectorRequest {
                operation: interaction.request.operation,
                collection: interaction.request.collection.clone(),
                parameters: crate::json::json_value_clone(&interaction.request.parameters),
            };
            proof {
                assert(req@ == cm.interactions[i as int].request);
            }
            let req_body = crate::codec::request_to_json(req);
            let request = crate::codec::obj3(
                "method",
                JsonValue::Str(make_string("POST")),
                "path",
                JsonValue::Str(make_string("/vector-operation")),
                "body",
                req_body,
            );
            let code: i64 = match interaction.response.status {
                ResponseStatus::Success => 200,
                ResponseStatus::Error => 500,
                ResponseStatus::NotFound => 404,
            };
            let body: JsonValue = match &interaction.response.data {
                Some(v) => crate::json::json_value_clone(v),
                None => {
                    let empty: Vec<(String, JsonValue)> = Vec::new();
                    proof {
                        assert(crate::json::fields_model(empty@) =~= Seq::<
                            (Seq<char>, JsonModel),
                        >::empty());
                    }
                    JsonValue::Object(empty)
                },
            };
            let response = crate::codec::obj2(
                "status",
                JsonValue::Int(code),
                "body",
                body,
            );
            let desc = interaction.description.clone();
            let entry = crate::codec::obj3(
                "description",
                JsonValue::Str(desc),
                "request",
                request,
                "response",
                response,
            );
            proof {
                let im = cm.interactions[i as int];
                assert(im == interaction@);
                assert(crate::json::json_model(request) =~~= pact_request_entry(im.request));
                assert(code == status_code(im.response.status));
                let bm = (match im.response.data {
                    Some(v) => v,
                    None => JsonModel::Obj(Seq::empty()),
                });
                assert(crate::json::json_model(body) =~~= bm);
                assert(seq![
                    ("status"@, JsonModel::Int(code)),
                    ("body"@, crate::json::json_model(body)),
                ] =~= seq![("status"@, JsonModel::Int(status_code(im.response.status))), ("body"@, bm)]);
                assert(crate::json::json_model(response) == JsonModel::Obj(
                    seq![
                        ("status"@, JsonModel::Int(status_code(im.response.status))),
                        ("body"@, bm),
                    ],
                ));
                assert(seq![
                    ("status"@, JsonModel::Int(status_code(im.response.status))),
                    ("body"@, bm),
                ] =~= pact_response_entry(im.response)->Obj_0);
                assert(crate::json::json_model(response) == pact_response_entry(im.response));
                assert(seq![
                    ("description"@, JsonModel::Str(desc@)),
                    ("request"@, crate::json::json_model(request)),
                    ("response"@, crate::json::json_model(response)),
                ] =~= seq![
                    ("description"@, JsonModel::Str(im.description)),
                    ("request"@, pact_request_entry(im.request)),
                    ("response"@, pact_response_entry(im.response)),
                ]);
                assert(crate::json::json_model(entry) == JsonModel::Obj(
                    seq![
                        ("description"@, JsonModel::Str(im.description)),
                        ("request"@, pact_request_entry(im.request)),
                        ("response"@, pact_response_entry(im.response)),
                    ],
                ));
                assert(seq![
                    ("description"@, JsonModel::Str(im.description)),
                    ("request"@, pact_request_entry(im.request)),
                    ("response"@, pact_response_entry(im.response)),
                ] =~= pact_interaction_entry(im)->Obj_0);
                assert(crate::json::json_model(entry) == pact_interaction_entry(im));
            }
            entries.push(entry);
            i += 1;
        }
        proof {
            crate::json::lemma_arr_model(entries@);
            assert(crate::json::arr_model(entries@) =~= Seq::new(
                cm.interactions.len(),
                |k: int| pact_interaction_entry(cm.interactions[k]),
            ));
        }
        let consumer = crate::codec::obj1("name", JsonValue::Str(contract.consumer.clone()));
        let provider = crate::codec::obj1("name", JsonValue::Str(contract.provider.clone()));
        let spec_tag = crate::codec::obj1("version", JsonValue::Str(make_string("2.0.0")));
        let metadata = crate::codec::obj1("pactSpecification", spec_tag);
        crate::codec::obj4(
            "consumer",
            consumer,
            "provider",
            provider,
            "interactions",
            JsonValue::Array(entries),
            "metadata",
            metadata,
        )
    }
}

/// Whether one change leaves the reserved history collection alone.
pub open spec fn change_spares(c: CollectionChangeModel, mcoll: Seq<char>) -> bool {
    match c {
        CollectionChangeModel::CreateCollection(cfg) => cfg.name != mcoll,
        CollectionChangeModel::DeleteCollection(n) => n != mcoll,
        _ => true,
    }
}

/// A change list that spares the history collection leaves its record
/// table untouched.
pub proof fn lemma_apply_all_spares_history(
    vecs: Map<Seq<char>, Map<Seq<char>, VectorRecordModel>>,
    cs: Seq<CollectionChangeModel>,
    mcoll: Seq<char>,
)
    requires
        forall|i: int| 0 <= i < cs.len() ==> change_spares(#[trigger] cs[i], mcoll),
        vecs.contains_key(mcoll),
    ensures
        apply_all_vecs(vecs, cs).contains_key(mcoll),
        apply_all_vecs(vecs, cs)[mcoll] == vecs[mcoll],
    decreases cs.len(),
{
    if cs.len() > 0 {
        assert(forall|i: int|
            0 <= i < cs.drop_last().len() ==> change_spares(
                #[trigger] cs.drop_last()[i],
                mcoll,
            ));
        lemma_apply_all_spares_history(vecs, cs.drop_last(), mcoll);
        assert(cs.last() == cs[cs.len() - 1]);
        assert(change_spares(cs.last(), mcoll));
    }
}

/// LAW: applying one recorded migration adds exactly its record to the
/// history table, provided its changes spare the history collection.
pub proof fn lemma_apply_grows_history_by_one(
    vecs0: Map<Seq<char>, Map<Seq<char>, VectorRecordModel>>,
    vecs1: Map<Seq<char>, Map<Seq<char>, VectorRecordModel>>,
    mcoll: Seq<char>,
    m: SchemaMigrationModel,
)
    requires
        vecs0.contains_key(mcoll),
        forall|i: int|
            0 <= i < m.collection_changes.len() ==> change_spares(
                #[trigger] m.collection_changes[i],
                mcoll,
            ),
        vecs1 == ({
            let midv = apply_all_vecs(vecs0, m.collection_changes);
            midv.insert(
                mcoll,
                coll_records(midv, mcoll).insert(version_key(m.version), migration_record(m)),
            )
        }),
    ensures
        vecs1.contains_key(mcoll),
        coll_records(vecs1, mcoll) == coll_records(vecs0, mcoll).insert(
            version_key(m.version),
            migration_record(m),
        ),
{
    lemma_apply_all_spares_history(vecs0, m.collection_changes, mcoll);
}

/// LAW: applying two migrations with distinct versions, in order,
/// starting from an empty history, leaves a history of exactly the two
/// records (each retrievable under its version key). Together with the
/// history read's contract — sorted ascending, sound and complete — the
/// read-back history lists exactly these two migrations in version
/// order.
pub proof fn lemma_history_after_two_applies(
    vecs0: Map<Seq<char>, Map<Seq<char>, VectorRecordModel>>,
    vecs1: Map<Seq<char>, Map<Seq<char>, VectorRecordModel>>,
    vecs2: Map<Seq<char>, Map<Seq<char>, VectorRecordModel>>,
    mcoll: Seq<char>,
    m1: SchemaMigrationModel,
    m2: SchemaMigrationModel,
)
    requires
        m1.version != m2.version,
        vecs0.contains_key(mcoll),
        coll_records(vecs0, mcoll) == Map::<Seq<char>, VectorRecordModel>::empty(),
        forall|i: int|
            0 <= i < m1.collection_changes.len() ==> change_spares(
                #[trigger] m1.collection_changes[i],
                mcoll,
            ),
        forall|i: int|
            0 <= i < m2.collection_changes.len() ==> change_spares(
                #[trigger] m2.collection_changes[i],
                mcoll,
            ),
        vecs1 == ({
            let midv = apply_all_vecs(vecs0, m1.collection_changes);
            midv.insert(
                mcoll,
                coll_records(midv, mcoll).insert(version_key(m1.version), migration_record(m1)),
            )
        }),
        vecs2 == ({
            let midv = apply_all_vecs(vecs1, m2.collection_changes);
            midv.insert(
                mcoll,
                coll_records(midv, mcoll).insert(version_key(m2.version), migration_record(m2)),
            )
        }),
    ensures
        coll_records(vecs2, mcoll).dom().finite(),
        coll_records(vecs2, mcoll).dom().len() == 2,
        coll_records(vecs2, mcoll)[version_key(m1.version)] == migration_record(m1),
        coll_records(vecs2, mcoll)[version_key(m2.version)] == migration_record(m2),
{
    lemma_apply_grows_history_by_one(vecs0, vecs1, mcoll, m1);
    lemma_apply_grows_history_by_one(vecs1, vecs2, mcoll, m2);
    lemma_distinct_versions_distinct_keys(m1.version, m2.version);
    let k1 = version_key(m1.version);
    let k2 = version_key(m2.version);
    let empty = Map::<Seq<char>, VectorRecordModel>::empty();
    assert(coll_records(vecs2, mcoll) == empty.insert(k1, migration_record(m1)).insert(
        k2,
        migration_record(m2),
    ));
    assert(empty.dom().finite() && empty.dom().len() == 0);
    assert(empty.insert(k1, migration_record(m1)).dom() =~= empty.dom().insert(k1));
    assert(coll_records(vecs2, mcoll).dom() =~= empty.dom().insert(k1).insert(k2));
}

/// A recorded migration's payload decodes back to it.
pub proof fn lemma_record_decodes(m: SchemaMigrationModel)
    ensures
        rec_migration(migration_record(m)) == Some(m),
{
    let md = migration_record(m).metadata;
    assert(md[0] == ("migration"@, migration_json(m)));
    assert(fields_find(md, "migration"@) == Some(migration_json(m)));
    crate::codec::lemma_migration_roundtrip(m);
}

/// LAW: after the two applications of `lemma_history_after_two_applies`,
/// any history read meeting the read contract (sorted, sound, complete,
/// no longer than the table) lists exactly the two migrations, ascending
/// by version.
pub proof fn lemma_history_read_after_two_applies(
    hm: Map<Seq<char>, VectorRecordModel>,
    m1: SchemaMigrationModel,
    m2: SchemaMigrationModel,
    hist: Seq<SchemaMigration>,
)
    requires
        m1.version.spec_lt(m2.version),
        hm.dom().finite(),
        hm.dom().len() == 2,
        hm.contains_key(version_key(m1.version)),
        hm[version_key(m1.version)] == migration_record(m1),
        hm.contains_key(version_key(m2.version)),
        hm[version_key(m2.version)] == migration_record(m2),
        sorted_by_version(hist),
        history_sound(hm, hist),
        history_complete(hm, hist),
        hist.len() <= hm.dom().len(),
    ensures
        hist.len() == 2,
        hist[0]@ == m1,
        hist[1]@ == m2,
{
    let k1 = version_key(m1.version);
    let k2 = version_key(m2.version);
    assert(m1.version != m2.version);
    lemma_distinct_versions_distinct_keys(m1.version, m2.version);
    lemma_record_decodes(m1);
    lemma_record_decodes(m2);
    assert(m1 != m2);
    let two = Set::<Seq<char>>::empty().insert(k1).insert(k2);
    assert(two.subset_of(hm.dom()));
    assert(two.len() == 2) by {
        assert(!Set::<Seq<char>>::empty().insert(k1).contains(k2));
        assert(Set::<Seq<char>>::empty().insert(k1).len() == 1);
    }
    assert forall|id: Seq<char>| hm.dom().contains(id) implies two.contains(id) by {
        if !two.contains(id) {
            assert(two.subset_of(hm.dom().remove(id)));
            vstd::set_lib::lemma_len_subset(two, hm.dom().remove(id));
            assert(hm.dom().remove(id).len() == 1);
            assert(false);
        }
    }
    assert forall|i: int|
        0 <= i < hist.len() implies ((#[trigger] hist[i])@ == m1 || hist[i]@ == m2) by {
        assert(denotes_some_record(hm, hist[i]));
        let id = choose|id: Seq<char>|
            #[trigger] hm.contains_key(id) && rec_migration(hm[id]) == Some(hist[i]@);
        assert(two.contains(id));
    }
    assert(rec_migration(hm[k1]) is Some);
    assert(appears_in(hist, rec_migration(hm[k1])));
    let i1 = choose|i: int|
        0 <= i < hist.len() && Some((#[trigger] hist[i])@) == rec_migration(hm[k1]);
    assert(rec_migration(hm[k2]) is Some);
    assert(appears_in(hist, rec_migration(hm[k2])));
    let i2 = choose|i: int|
        0 <= i < hist.len() && Some((#[trigger] hist[i])@) == rec_migration(hm[k2]);
    assert(hist[i1]@ == m1);
    assert(hist[i2]@ == m2);
    assert(i1 != i2);
    assert(hist.len() == 2);
    if hist[0]@ == m2 {
        assert(hist[1]@ == m1);
        assert(hist[0]@.version.spec_le(hist[1]@.version));
        assert(false);
    }
    assert(hist[0]@ == m1);
    assert(hist[1]@ == m2);
}

} // verus!
