//! The vector-store backend port.
//!
//! The migration engine and the search path reach the backend through
//! these traits. The abstract state of a backend is a pair of maps: the
//! collection configurations by name, and the records by collection and
//! id. Each operation's contract says how the state may change for every
//! outcome; a real network-backed implementation is trusted to meet the
//! same contract the in-memory implementation proves.
//!
//! Single-writer discipline is assumed: the contracts describe one
//! client's view, and nothing here serializes concurrent writers.

use vstd::prelude::*;

use crate::errors::VectorError;
use crate::json::fields_find;
use crate::json::JsonModel;
use crate::json::JsonValue;
use crate::vector::CollectionConfig;
use crate::vector::CollectionConfigModel;
use crate::vector::SearchParams;
use crate::vector::Vector;
use crate::vector::VectorRecordModel;
use crate::vector::VectorSearchResult;

verus! {

/// The records of one collection, or an empty table if the collection
/// is absent.
pub open spec fn coll_records(
    vv: Map<Seq<char>, Map<Seq<char>, VectorRecordModel>>,
    name: Seq<char>,
) -> Map<Seq<char>, VectorRecordModel> {
    if vv.contains_key(name) {
        vv[name]
    } else {
        Map::empty()
    }
}

/// Whether a record's metadata satisfies every (field, value) equality
/// pair of a filter map.
pub open spec fn record_matches_filters(
    md: Seq<(Seq<char>, JsonModel)>,
    filters: Seq<(Seq<char>, JsonModel)>,
) -> bool {
    forall|i: int|
        0 <= i < filters.len() ==> fields_find(md, (#[trigger] filters[i]).0) == Some(
            filters[i].1,
        )
}

/// The models of a record list.
pub open spec fn records_of(s: Seq<Vector>) -> Seq<VectorRecordModel> {
    Seq::new(s.len(), |i: int| s[i]@)
}

/// A record table after storing each of `vs` in order, keyed by id.
pub open spec fn insert_all(
    m: Map<Seq<char>, VectorRecordModel>,
    vs: Seq<VectorRecordModel>,
) -> Map<Seq<char>, VectorRecordModel>
    decreases vs.len(),
{
    if vs.len() == 0 {
        m
    } else {
        insert_all(m, vs.drop_last()).insert(vs.last().id, vs.last())
    }
}

/// A record table after deleting each id of `ids` in order.
pub open spec fn remove_all(
    m: Map<Seq<char>, VectorRecordModel>,
    ids: Seq<Seq<char>>,
) -> Map<Seq<char>, VectorRecordModel>
    decreases ids.len(),
{
    if ids.len() == 0 {
        m
    } else {
        remove_all(m, ids.drop_last()).remove(ids.last())
    }
}

/// The id views of a list of ids.
pub open spec fn ids_of(s: Seq<String>) -> Seq<Seq<char>> {
    Seq::new(s.len(), |i: int| s[i]@)
}

/// The abstract state of a vector-store backend.
pub trait BackendState: Sized {
    /// Collection configurations by name.
    spec fn collections_view(&self) -> Map<Seq<char>, CollectionConfigModel>;

    /// Records by collection name and record id.
    spec fn vectors_view(&self) -> Map<Seq<char>, Map<Seq<char>, VectorRecordModel>>;
}

/// Core vector operations: store, retrieve, search, delete.
pub trait VectorStore: BackendState {
    /// Store (or overwrite) one record under its id.
    fn store_vector(&mut self, collection: &str, vector: Vector) -> (r: Result<(), VectorError>)
        ensures
            r is Ok ==> final(self).vectors_view() == old(self).vectors_view().insert(
                collection@,
                coll_records(old(self).vectors_view(), collection@).insert(vector@.id, vector@),
            ) && final(self).collections_view() == old(self).collections_view(),
            r is Err ==> final(self).vectors_view() == old(self).vectors_view() && final(self).collections_view() == old(self).collections_view(),
    ;

    /// Store several records; per-record outcomes are reported in order.
    fn store_vectors_batch(&mut self, collection: &str, vectors: Vec<Vector>) -> (r: Result<
        Vec<Result<(), VectorError>>,
        VectorError,
    >)
        ensures
            final(self).collections_view() == old(self).collections_view(),
            r matches Ok(results) ==> results@.len() == vectors@.len(),
            (r is Ok && vectors@.len() > 0 && (forall|i: int|
                0 <= i < vectors@.len() ==> r->Ok_0@[i] is Ok)) ==> final(self).vectors_view()
                == old(self).vectors_view().insert(
                collection@,
                insert_all(
                    coll_records(old(self).vectors_view(), collection@),
                    records_of(vectors@),
                ),
            ),
            vectors@.len() == 0 ==> final(self).vectors_view() == old(self).vectors_view(),
            r is Err ==> final(self).vectors_view() == old(self).vectors_view(),
    ;

    /// Retrieve a record by id; `Ok(None)` means the collection exists
    /// but holds no such record.
    fn get_vector(&self, collection: &str, id: &str) -> (r: Result<Option<Vector>, VectorError>)
        ensures
            r matches Ok(o) ==> (o matches Some(v) ==> (self.vectors_view().contains_key(
                collection@,
            ) && self.vectors_view()[collection@].contains_key(id@) && v@ == self.vectors_view()[collection@][id@])),
            r matches Ok(o) ==> (o is None ==> (self.vectors_view().contains_key(collection@)
                && !self.vectors_view()[collection@].contains_key(id@))),
    ;

    /// Rank records of a collection against a query embedding, keeping
    /// only records whose metadata matches every filter pair, up to
    /// `params.limit` results. When no filters are given and the whole
    /// collection fits the limit, every record is returned exactly once.
    fn search_similar(&self, collection: &str, query_vector: Vec<u32>, params: SearchParams) -> (r:
        Result<Vec<VectorSearchResult>, VectorError>)
        ensures
            r matches Ok(results) ==> {
                let recs = self.vectors_view()[collection@];
                &&& self.vectors_view().contains_key(collection@)
                &&& results@.len() <= params@.limit
                &&& (forall|i: int|
                    0 <= i < results@.len() ==> {
                        let rec = (#[trigger] results@[i])@.vector;
                        &&& recs.contains_key(rec.id)
                        &&& recs[rec.id] == rec
                        &&& record_matches_filters(rec.metadata, params@.filters)
                    })
                &&& (forall|i: int, j: int|
                    0 <= i < j < results@.len() ==> (#[trigger] results@[i])@.vector.id != (
                    #[trigger] results@[j])@.vector.id)
                &&& (params@.filters.len() == 0 && recs.dom().finite() && recs.dom().len()
                    <= params@.limit ==> results@.len() == recs.dom().len())
            },
    ;

    /// Delete a record by id.
    fn delete_vector(&mut self, collection: &str, id: &str) -> (r: Result<(), VectorError>)
        ensures
            r is Ok ==> final(self).vectors_view() == old(self).vectors_view().insert(
                collection@,
                coll_records(old(self).vectors_view(), collection@).remove(id@),
            ) && final(self).collections_view() == old(self).collections_view(),
            r is Err ==> final(self).vectors_view() == old(self).vectors_view() && final(self).collections_view() == old(self).collections_view(),
    ;

    /// Delete several records by id, in order.
    fn delete_vectors_batch(&mut self, collection: &str, ids: Vec<String>) -> (r: Result<
        (),
        VectorError,
    >)
        ensures
            final(self).collections_view() == old(self).collections_view(),
            r is Ok && ids@.len() > 0 ==> final(self).vectors_view() == old(
                self,
            ).vectors_view().insert(
                collection@,
                remove_all(coll_records(old(self).vectors_view(), collection@), ids_of(ids@)),
            ),
            ids@.len() == 0 ==> final(self).vectors_view() == old(self).vectors_view(),
    ;
}

/// Collection lifecycle management.
pub trait VectorCollectionManager: BackendState {
    /// Create a collection; fails if one of that name already exists.
    fn create_collection(&mut self, config: CollectionConfig) -> (r: Result<(), VectorError>)
        ensures
            r is Ok ==> (!old(self).collections_view().contains_key(config@.name) && final(self).collections_view() == old(self).collections_view().insert(config@.name, config@)
                && final(self).vectors_view() == old(self).vectors_view().insert(
                config@.name,
                Map::empty(),
            )),
            r is Err ==> final(self).collections_view() == old(self).collections_view() && final(self).vectors_view() == old(self).vectors_view(),
    ;

    /// Delete a collection and its records.
    fn delete_collection(&mut self, collection_name: &str) -> (r: Result<(), VectorError>)
        ensures
            r is Ok ==> final(self).collections_view() == old(self).collections_view().remove(
                collection_name@,
            ) && final(self).vectors_view() == old(self).vectors_view().remove(collection_name@),
            r is Err ==> final(self).collections_view() == old(self).collections_view() && final(self).vectors_view() == old(self).vectors_view(),
    ;

    /// List every collection's configuration.
    fn list_collections(&self) -> (r: Result<Vec<CollectionConfig>, VectorError>)
        ensures
            r matches Ok(cs) ==> {
                &&& (forall|i: int|
                    0 <= i < cs@.len() ==> self.collections_view().contains_key(
                        (#[trigger] cs@[i])@.name,
                    ) && self.collections_view()[cs@[i]@.name] == cs@[i]@)
                &&& (self.collections_view().dom().finite() ==> cs@.len()
                    == self.collections_view().dom().len())
            },
    ;

    /// Look a collection's configuration up by name.
    fn get_collection_info(&self, collection_name: &str) -> (r: Result<
        Option<CollectionConfig>,
        VectorError,
    >)
        ensures
            r matches Ok(o) ==> (o matches Some(c) ==> (self.collections_view().contains_key(
                collection_name@,
            ) && self.collections_view()[collection_name@] == c@)),
            r matches Ok(o) ==> (o is None ==> !self.collections_view().contains_key(
                collection_name@,
            )),
    ;

    /// Statistics of a collection, as a JSON-like field list.
    fn get_collection_stats(&self, collection_name: &str) -> (r: Result<
        Vec<(String, JsonValue)>,
        VectorError,
    >)
        ensures
            r is Ok ==> self.vectors_view().contains_key(collection_name@),
    ;
}

/// Backend liveness checks.
pub trait VectorStoreHealth: BackendState {
    /// Whether the backend answers at all.
    fn is_healthy(&self) -> (r: Result<bool, VectorError>);

    /// Health details as a JSON-like field list.
    fn health_check(&self) -> (r: Result<Vec<(String, JsonValue)>, VectorError>);
}

/// Connection lifecycle of a backend.
pub trait VectorDatabase: BackendState {
    /// The configuration the backend connects with.
    type Config;

    /// Open a connection.
    fn connect(config: Self::Config) -> (r: Result<Self, VectorError>);

    /// A human-readable description of the connection.
    fn connection_info(&self) -> (r: String);

    /// Close the connection; the stored data is unaffected.
    fn close(&mut self) -> (r: Result<(), VectorError>)
        ensures
            final(self).collections_view() == old(self).collections_view(),
            final(self).vectors_view() == old(self).vectors_view(),
    ;

    /// Whether a named optional feature is supported.
    fn supports_feature(&self, feature: &str) -> (r: bool);
}

} // verus!
