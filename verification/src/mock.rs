//! An in-memory vector store, verified against the backend port.
//!
//! The store keeps two association lists — collection configurations by
//! name, and per-collection record tables by id — and proves the same
//! contracts a real backend is trusted to meet. Ranking is simulated:
//! every record matching the filters is returned with a fixed score.
//!
//! The tables are owned by the adapter value itself; single-writer
//! discipline is the caller's responsibility, as it is for the port.

use vstd::prelude::*;

use crate::assoc::assoc_map;
use crate::assoc::assoc_unique;
use crate::assoc::lemma_assoc_map_char;
use crate::assoc::lemma_assoc_map_push;
use crate::assoc::lemma_assoc_map_remove;
use crate::config::QdrantConfig;
use crate::errors::VectorError;
use crate::json::fields_model;
use crate::json::fields_get;
use crate::json::json_value_eq;
use crate::json::JsonValue;
use crate::qdrant_errors::make_string;
use crate::store::coll_records;
use crate::store::ids_of;
use crate::store::insert_all;
use crate::store::record_matches_filters;
use crate::store::records_of;
use crate::store::remove_all;
use crate::store::BackendState;
use crate::store::VectorCollectionManager;
use crate::store::VectorDatabase;
use crate::store::VectorStore;
use crate::store::VectorStoreHealth;
use crate::vector::CollectionConfig;
use crate::vector::CollectionConfigModel;
use crate::vector::SearchParams;
use crate::vector::Vector;
use crate::vector::VectorRecordModel;
use crate::vector::VectorSearchResult;

verus! {

/// The bit pattern of the fixed similarity score the simulated ranking
/// reports (0.9 as a 32-bit float).
pub const MOCK_SCORE_BITS: u32 = 0x3F666666;

/// One collection's records, keyed by id.
type Table = Vec<(String, Vector)>;

/// A record table is well formed when its keys are unique and each key
/// is the id of the record it binds.
pub open spec fn table_wf(t: Seq<(String, Vector)>) -> bool {
    &&& assoc_unique(t)
    &&& forall|j: int| 0 <= j < t.len() ==> (#[trigger] t[j]).0@ == t[j].1@.id
}

/// The outer table list is well formed when collection names are unique
/// and every table is well formed.
pub open spec fn tables_wf(vs: Seq<(String, Table)>) -> bool {
    &&& assoc_unique(vs)
    &&& forall|i: int| 0 <= i < vs.len() ==> table_wf((#[trigger] vs[i]).1@)
}

/// The record maps of a table map.
pub open spec fn tables_view(m: Map<Seq<char>, Seq<(String, Vector)>>) -> Map<
    Seq<char>,
    Map<Seq<char>, VectorRecordModel>,
> {
    Map::new(|k: Seq<char>| m.contains_key(k), |k: Seq<char>| assoc_map(m[k]))
}

/// Inserting a table and viewing commute.
proof fn lemma_tables_view_insert(
    m: Map<Seq<char>, Seq<(String, Vector)>>,
    k: Seq<char>,
    t: Seq<(String, Vector)>,
)
    ensures
        tables_view(m.insert(k, t)) == tables_view(m).insert(k, assoc_map(t)),
{
    assert(tables_view(m.insert(k, t)) =~= tables_view(m).insert(k, assoc_map(t)));
}

/// Removing a table and viewing commute.
proof fn lemma_tables_view_remove(m: Map<Seq<char>, Seq<(String, Vector)>>, k: Seq<char>)
    ensures
        tables_view(m.remove(k)) == tables_view(m).remove(k),
{
    assert(tables_view(m.remove(k)) =~= tables_view(m).remove(k));
}

/// Find the index of a binding by key.
fn find_key<V>(v: &Vec<(String, V)>, name: &str) -> (r: Option<usize>)
    ensures
        r matches Some(i) ==> (i < v@.len() && v@[i as int].0@ == name@),
        r is None ==> forall|j: int| 0 <= j < v@.len() ==> (#[trigger] v@[j]).0@ != name@,
{
    let mut i: usize = 0;
    while i < v.len()
        invariant
            i <= v.len(),
            forall|j: int| 0 <= j < i ==> (#[trigger] v@[j]).0@ != name@,
        decreases v.len() - i,
    {
        if crate::json::str_eq(v[i].0.as_str(), name) {
            return Some(i);
        }
        i += 1;
    }
    None
}

/// The in-memory adapter.
pub struct MockQdrantAdapter {
    collections: Vec<(String, CollectionConfig)>,
    vectors: Vec<(String, Table)>,
}

impl MockQdrantAdapter {
    /// Well-formedness of the two tables.
    #[verifier::type_invariant]
    closed spec fn wf(self) -> bool {
        &&& assoc_unique(self.collections@)
        &&& forall|i: int|
            0 <= i < self.collections@.len() ==> (#[trigger] self.collections@[i]).0@
                == self.collections@[i].1@.name
        &&& tables_wf(self.vectors@)
    }

    /// A fresh adapter with no collections and no records.
    pub fn new() -> (r: MockQdrantAdapter)
        ensures
            r.collections_view() == Map::<Seq<char>, CollectionConfigModel>::empty(),
            r.vectors_view() == Map::<Seq<char>, Map<Seq<char>, VectorRecordModel>>::empty(),
    {
        let r = MockQdrantAdapter { collections: Vec::new(), vectors: Vec::new() };
        proof {
            assert(r.collections_view() =~= Map::<Seq<char>, CollectionConfigModel>::empty());
            assert(r.vectors_view() =~= Map::<
                Seq<char>,
                Map<Seq<char>, VectorRecordModel>,
            >::empty());
        }
        r
    }

    /// A fresh adapter; the configuration is accepted for interface
    /// compatibility and ignored.
    pub fn with_config(_config: QdrantConfig) -> (r: MockQdrantAdapter)
        ensures
            r.collections_view() == Map::<Seq<char>, CollectionConfigModel>::empty(),
            r.vectors_view() == Map::<Seq<char>, Map<Seq<char>, VectorRecordModel>>::empty(),
    {
        MockQdrantAdapter::new()
    }
}

impl Default for MockQdrantAdapter {
    /// Same as `new`.
    fn default() -> (r: MockQdrantAdapter)
        ensures
            r.collections_view() == Map::<Seq<char>, CollectionConfigModel>::empty(),
            r.vectors_view() == Map::<Seq<char>, Map<Seq<char>, VectorRecordModel>>::empty(),
    {
        MockQdrantAdapter::new()
    }
}

impl BackendState for MockQdrantAdapter {
    closed spec fn collections_view(&self) -> Map<Seq<char>, CollectionConfigModel> {
        assoc_map(self.collections@)
    }

    closed spec fn vectors_view(&self) -> Map<Seq<char>, Map<Seq<char>, VectorRecordModel>> {
        tables_view(assoc_map(self.vectors@))
    }
}

impl VectorStore for MockQdrantAdapter {
    fn store_vector(&mut self, collection: &str, vector: Vector) -> (r: Result<(), VectorError>)
        ensures
            r is Ok,
    {
        proof {
            use_type_invariant(&*self);
            lemma_assoc_map_char(self.vectors@);
        }
        let ghost old_tables = self.vectors@;
        let mut tables: Vec<(String, Table)> = Vec::new();
        std::mem::swap(&mut tables, &mut self.vectors);
        let (cname, mut table) = match find_key(&tables, collection) {
            Some(ci) => {
                let pair = tables.remove(ci);
                proof {
                    lemma_assoc_map_remove(old_tables, ci as int);
                }
                pair
            },
            None => (make_string(collection), Vec::new()),
        };
        proof {
            lemma_assoc_map_char(table@);
        }
        let ghost old_table = table@;
        let key = vector.id.clone();
        match find_key(&table, key.as_str()) {
            Some(ri) => {
                let _ = table.remove(ri);
                proof {
                    lemma_assoc_map_remove(old_table, ri as int);
                    lemma_assoc_map_char(table@);
                }
            },
            None => {},
        }
        proof {
            lemma_assoc_map_push(table@, (key, vector));
        }
        table.push((key, vector));
        proof {
            lemma_assoc_map_char(tables@);
            lemma_assoc_map_push(tables@, (cname, table));
        }
        let ghost pre_push = tables@;
        tables.push((cname, table));
        std::mem::swap(&mut tables, &mut self.vectors);
        proof {
            let ov = tables_view(assoc_map(old_tables));
            let orecs = coll_records(ov, collection@);
            let newt = self.vectors@.last().1@;
            assert(self.vectors@.last().0@ == collection@);
            assert(assoc_map(self.vectors@) == assoc_map(pre_push).insert(collection@, newt));
            assert(assoc_map(pre_push) =~= assoc_map(old_tables).remove(collection@));
            lemma_tables_view_insert(
                assoc_map(old_tables).remove(collection@),
                collection@,
                newt,
            );
            assert(tables_view(assoc_map(old_tables).remove(collection@)) =~= ov.remove(
                collection@,
            ));
            assert(assoc_map(newt) =~= orecs.insert(vector@.id, vector@));
            assert(tables_view(assoc_map(self.vectors@)) =~= ov.insert(
                collection@,
                orecs.insert(vector@.id, vector@),
            ));
        }
        Ok(())
    }

    #[verifier::loop_isolation(false)]
    fn store_vectors_batch(&mut self, collection: &str, vectors: Vec<Vector>) -> (r: Result<
        Vec<Result<(), VectorError>>,
        VectorError,
    >)
        ensures
            r is Ok,
            r matches Ok(results) ==> forall|i: int|
                0 <= i < results@.len() ==> (#[trigger] results@[i]) is Ok,
    {
        let ghost orig_vv = self.vectors_view();
        let ghost orig_recs = coll_records(orig_vv, collection@);
        let ghost all = records_of(vectors@);
        let mut pending = vectors;
        let mut results: Vec<Result<(), VectorError>> = Vec::new();
        let n0 = pending.len();
        proof {
            assert(all.skip(0) =~= all);
            assert(all.take(0) =~= Seq::<VectorRecordModel>::empty());
        }
        let mut i: usize = 0;
        while pending.len() > 0
            invariant
                i + pending@.len() == n0,
                all.len() == n0,
                records_of(pending@) =~= all.skip(i as int),
                results@.len() == i,
                forall|j: int| 0 <= j < i ==> (#[trigger] results@[j]) is Ok,
                self.collections_view() == old(self).collections_view(),
                orig_vv == old(self).vectors_view(),
                orig_recs == coll_records(orig_vv, collection@),
                self.vectors_view() == (if i == 0 {
                    orig_vv
                } else {
                    orig_vv.insert(collection@, insert_all(orig_recs, all.take(i as int)))
                }),
            decreases pending.len(),
        {
            proof {
                assert(records_of(pending@)[0] == all[i as int]);
            }
            let ghost prev = pending@;
            let v = pending.remove(0);
            proof {
                assert(records_of(prev).drop_first() =~= records_of(pending@));
            }
            let res = self.store_vector(collection, v);
            match res {
                Ok(()) => {
                    results.push(Ok(()));
                },
                Err(e) => {
                    results.push(Err(e));
                },
            }
            proof {
                assert(all.take(i + 1).drop_last() =~= all.take(i as int));
                assert(all.take(i + 1).last() == all[i as int]);
                if i > 0 {
                    assert(coll_records(
                        orig_vv.insert(collection@, insert_all(orig_recs, all.take(i as int))),
                        collection@,
                    ) == insert_all(orig_recs, all.take(i as int)));
                }
                assert(orig_vv.insert(
                    collection@,
                    insert_all(orig_recs, all.take(i as int)).insert(
                        all[i as int].id,
                        all[i as int],
                    ),
                ) =~= orig_vv.insert(collection@, insert_all(orig_recs, all.take(i + 1))));
            }
            i += 1;
        }
        proof {
            assert(all.take(n0 as int) =~= all);
        }
        Ok(results)
    }

    fn get_vector(&self, collection: &str, id: &str) -> (r: Result<Option<Vector>, VectorError>)
        ensures
            r is Ok <==> self.vectors_view().contains_key(collection@),
            r matches Err(e) ==> e matches VectorError::CollectionNotFound { .. },
    {
        proof {
            use_type_invariant(self);
            lemma_assoc_map_char(self.vectors@);
        }
        match find_key(&self.vectors, collection) {
            Some(ci) => {
                let table = &self.vectors[ci].1;
                proof {
                    lemma_assoc_map_char(table@);
                    assert(assoc_map(self.vectors@).contains_key(collection@));
                    assert(assoc_map(self.vectors@)[collection@] == table@);
                    assert(self.vectors_view().contains_key(collection@));
                    assert(self.vectors_view()[collection@] == assoc_map(table@));
                }
                match find_key(table, id) {
                    Some(ri) => {
                        proof {
                            assert(assoc_map(table@).contains_key(id@));
                            assert(assoc_map(table@)[id@] == table@[ri as int].1@);
                        }
                        Ok(Some(table[ri].1.clone_vector()))
                    },
                    None => {
                        proof {
                            assert(!assoc_map(table@).contains_key(id@));
                        }
                        Ok(None)
                    },
                }
            },
            None => Err(VectorError::collection_not_found(make_string(collection))),
        }
    }

    fn search_similar(&self, collection: &str, query_vector: Vec<u32>, params: SearchParams) -> (
        r: Result<Vec<VectorSearchResult>, VectorError>)
        ensures
            r is Ok <==> self.vectors_view().contains_key(collection@),
            r matches Err(e) ==> e matches VectorError::CollectionNotFound { .. },
            r matches Ok(results) ==> forall|i: int|
                0 <= i < results@.len() ==> (#[trigger] results@[i])@.score_bits
                    == MOCK_SCORE_BITS,
            r matches Ok(results) ==> ({
                let recs = self.vectors_view()[collection@];
                recs.dom().finite() && recs.dom().len() <= params@.limit ==> (forall|
                    id: Seq<char>,
                |
                    #[trigger] recs.contains_key(id) && record_matches_filters(
                        recs[id].metadata,
                        params@.filters,
                    ) ==> exists|i: int|
                        0 <= i < results@.len() && (#[trigger] results@[i])@.vector == recs[id])
            }),
    {
        proof {
            use_type_invariant(self);
            lemma_assoc_map_char(self.vectors@);
        }
        match find_key(&self.vectors, collection) {
            Some(ci) => {
                let table = &self.vectors[ci].1;
                proof {
                    lemma_assoc_map_char(table@);
                }
                let ghost recs = self.vectors_view()[collection@];
                let mut results: Vec<VectorSearchResult> = Vec::new();
                let ghost idxs: Seq<int> = Seq::empty();
                let mut idxs = Ghost(idxs);
                let mut ri: usize = 0;
                while ri < table.len() && results.len() < params.limit
                    invariant
                        ri <= table@.len(),
                        recs == assoc_map(table@),
                        table_wf(table@),
                        recs.dom().finite(),
                        recs.dom().len() == table@.len(),
                        forall|j: int| 0 <= j < table@.len() ==> recs.contains_key(
                            (#[trigger] table@[j]).0@,
                        ) && recs[table@[j].0@] == table@[j].1@,
                        idxs@.len() == results@.len(),
                        results@.len() <= params.limit,
                        idxs@.len() <= ri,
                        forall|a: int| 0 <= a < idxs@.len() ==> 0 <= #[trigger] idxs@[a] < ri,
                        forall|a: int, b: int| 0 <= a < b < idxs@.len() ==> #[trigger] idxs@[a]
                            < #[trigger] idxs@[b],
                        forall|a: int| 0 <= a < idxs@.len() ==> (#[trigger] results@[a])@.vector
                            == table@[idxs@[a]].1@ && (#[trigger] results@[a])@.score_bits
                            == MOCK_SCORE_BITS && record_matches_filters(
                            table@[idxs@[a]].1@.metadata,
                            fields_model(params.filters@),
                        ),
                        fields_model(params.filters@).len() == 0 && table@.len() <= params.limit
                            ==> results@.len() == ri,
                        table@.len() <= params.limit ==> (forall|j: int|
                            0 <= j < ri && record_matches_filters(
                                (#[trigger] table@[j]).1@.metadata,
                                fields_model(params.filters@),
                            ) ==> exists|a: int|
                                0 <= a < idxs@.len() && #[trigger] idxs@[a] == j),
                    decreases table@.len() - ri,
                {
                    let ghost before_results = results@;
                    let ghost before_idxs = idxs@;
                    let matched = matches_filters(&table[ri].1.metadata, &params.filters);
                    if matched {
                        let hit = VectorSearchResult::new(
                            table[ri].1.clone_vector(),
                            MOCK_SCORE_BITS,
                        );
                        results.push(hit);
                        proof {
                            idxs@ = idxs@.push(ri as int);
                            assert(idxs@.last() == ri as int);
                            assert(results@.last()@.vector == table@[ri as int].1@);
                            assert(results@.last()@.score_bits == MOCK_SCORE_BITS);
                            assert(record_matches_filters(
                                table@[ri as int].1@.metadata,
                                fields_model(params.filters@),
                            ));
                        }
                    }
                    proof {
                        crate::json::lemma_fields_model(params.filters@);
                        if fields_model(params.filters@).len() == 0 {
                            assert(matched);
                        }
                        assert forall|a: int| 0 <= a < idxs@.len() implies ((
                        #[trigger] results@[a])@.vector == table@[idxs@[a]].1@ && results@[a]@.score_bits
                            == MOCK_SCORE_BITS && record_matches_filters(
                            table@[idxs@[a]].1@.metadata,
                            fields_model(params.filters@),
                        )) by {
                            if matched && a == idxs@.len() - 1 {
                                assert(idxs@[a] == ri as int);
                            } else {
                                assert(results@[a] == before_results[a]);
                                assert(idxs@[a] == before_idxs[a]);
                            }
                        }
                        if table@.len() <= params.limit {
                            assert forall|j: int|
                                0 <= j < ri + 1 && record_matches_filters(
                                    (#[trigger] table@[j]).1@.metadata,
                                    fields_model(params.filters@),
                                ) implies exists|a: int|
                                0 <= a < idxs@.len() && #[trigger] idxs@[a] == j by {
                                if j == ri {
                                    assert(matched);
                                    assert(idxs@[idxs@.len() - 1] == ri as int);
                                } else {
                                    let a0 = choose|a0: int|
                                        0 <= a0 < before_idxs.len() && #[trigger] before_idxs[a0]
                                            == j;
                                    assert(idxs@[a0] == j);
                                }
                            }
                        }
                    }
                    ri += 1;
                }
                proof {
                    assert forall|a: int, b: int|
                        0 <= a < b < results@.len() implies (#[trigger] results@[a])@.vector.id
                        != (#[trigger] results@[b])@.vector.id by {
                        assert(idxs@[a] < idxs@[b]);
                        assert(table@[idxs@[a]].0@ != table@[idxs@[b]].0@);
                        assert(results@[a]@.vector.id == table@[idxs@[a]].0@);
                        assert(results@[b]@.vector.id == table@[idxs@[b]].0@);
                    }
                    assert forall|a: int| 0 <= a < results@.len() implies {
                        let rec = (#[trigger] results@[a])@.vector;
                        &&& recs.contains_key(rec.id)
                        &&& recs[rec.id] == rec
                        &&& record_matches_filters(rec.metadata, params@.filters)
                    } by {
                        assert(results@[a]@.vector == table@[idxs@[a]].1@);
                        assert(table@[idxs@[a]].0@ == table@[idxs@[a]].1@.id);
                    }
                    if recs.dom().len() <= params.limit {
                        assert(ri >= table@.len()) by {
                            if ri < table@.len() {
                                assert(results@.len() >= params.limit);
                                assert(idxs@.len() <= ri);
                                assert(false);
                            }
                        }
                        assert forall|id: Seq<char>|
                            #[trigger] recs.contains_key(id) && record_matches_filters(
                                recs[id].metadata,
                                params@.filters,
                            ) implies exists|i: int|
                            0 <= i < results@.len() && (#[trigger] results@[i])@.vector == recs[id]
                            by {
                            let j = choose|j: int|
                                0 <= j < table@.len() && (#[trigger] table@[j]).0@ == id;
                            assert(recs[id] == table@[j].1@);
                            assert(record_matches_filters(
                                table@[j].1@.metadata,
                                fields_model(params.filters@),
                            ));
                            let a = choose|a: int|
                                0 <= a < idxs@.len() && #[trigger] idxs@[a] == j;
                            assert(results@[a]@.vector == table@[j].1@);
                        }
                    }
                }
                Ok(results)
            },
            None => Err(VectorError::collection_not_found(make_string(collection))),
        }
    }

    fn delete_vector(&mut self, collection: &str, id: &str) -> (r: Result<(), VectorError>)
        ensures
            r is Ok <==> old(self).vectors_view().contains_key(collection@),
            r matches Err(e) ==> e matches VectorError::CollectionNotFound { .. },
    {
        proof {
            use_type_invariant(&*self);
            lemma_assoc_map_char(self.vectors@);
        }
        let ghost old_tables = self.vectors@;
        let mut tables: Vec<(String, Table)> = Vec::new();
        std::mem::swap(&mut tables, &mut self.vectors);
        match find_key(&tables, collection) {
            Some(ci) => {
                let (cname, mut table) = tables.remove(ci);
                proof {
                    lemma_assoc_map_remove(old_tables, ci as int);
                    lemma_assoc_map_char(table@);
                }
                let ghost old_table = table@;
                match find_key(&table, id) {
                    Some(ri) => {
                        let _ = table.remove(ri);
                        proof {
                            lemma_assoc_map_remove(old_table, ri as int);
                        }
                    },
                    None => {
                        proof {
                            assert(assoc_map(old_table).remove(id@) =~= assoc_map(old_table));
                        }
                    },
                }
                proof {
                    lemma_assoc_map_char(tables@);
                    lemma_assoc_map_push(tables@, (cname, table));
                }
                tables.push((cname, table));
                std::mem::swap(&mut tables, &mut self.vectors);
                proof {
                    let ov = tables_view(assoc_map(old_tables));
                    lemma_tables_view_insert(
                        assoc_map(old_tables).remove(collection@),
                        collection@,
                        self.vectors@.last().1@,
                    );
                    assert(tables_view(assoc_map(self.vectors@)) =~= ov.insert(
                        collection@,
                        coll_records(ov, collection@).remove(id@),
                    ));
                }
                Ok(())
            },
            None => {
                std::mem::swap(&mut tables, &mut self.vectors);
                Err(VectorError::collection_not_found(make_string(collection)))
            },
        }
    }

    #[verifier::loop_isolation(false)]
    fn delete_vectors_batch(&mut self, collection: &str, ids: Vec<String>) -> (r: Result<
        (),
        VectorError,
    >)
        ensures
            ids@.len() == 0 ==> r is Ok,
            ids@.len() > 0 ==> (r is Ok <==> old(self).vectors_view().contains_key(collection@)),
            r matches Err(e) ==> e matches VectorError::CollectionNotFound { .. },
    {
        let ghost orig_vv = self.vectors_view();
        let ghost orig_recs = coll_records(orig_vv, collection@);
        let ghost all = ids_of(ids@);
        let mut pending = ids;
        let n0 = pending.len();
        proof {
            assert(all.skip(0) =~= all);
            assert(all.take(0) =~= Seq::<Seq<char>>::empty());
        }
        let mut i: usize = 0;
        while pending.len() > 0
            invariant
                i + pending@.len() == n0,
                all.len() == n0,
                ids_of(pending@) =~= all.skip(i as int),
                self.collections_view() == old(self).collections_view(),
                orig_vv == old(self).vectors_view(),
                orig_recs == coll_records(orig_vv, collection@),
                i > 0 ==> orig_vv.contains_key(collection@),
                self.vectors_view() == (if i == 0 {
                    orig_vv
                } else {
                    orig_vv.insert(collection@, remove_all(orig_recs, all.take(i as int)))
                }),
            decreases pending.len(),
        {
            proof {
                assert(ids_of(pending@)[0] == all[i as int]);
            }
            let ghost prev = pending@;
            let id = pending.remove(0);
            proof {
                assert(ids_of(prev).drop_first() =~= ids_of(pending@));
            }
            match self.delete_vector(collection, id.as_str()) {
                Ok(()) => {},
                Err(e) => {
                    return Err(e);
                },
            }
            proof {
                assert(all.take(i + 1).drop_last() =~= all.take(i as int));
                assert(all.take(i + 1).last() == all[i as int]);
                if i > 0 {
                    assert(coll_records(
                        orig_vv.insert(collection@, remove_all(orig_recs, all.take(i as int))),
                        collection@,
                    ) == remove_all(orig_recs, all.take(i as int)));
                }
                assert(orig_vv.insert(
                    collection@,
                    remove_all(orig_recs, all.take(i as int)).remove(all[i as int]),
                ) =~= orig_vv.insert(collection@, remove_all(orig_recs, all.take(i + 1))));
            }
            i += 1;
        }
        proof {
            assert(all.take(n0 as int) =~= all);
        }
        Ok(())
    }
}

/// Whether a record's metadata satisfies every filter pair.
fn matches_filters(md: &Vec<(String, JsonValue)>, filters: &Vec<(String, JsonValue)>) -> (r: bool)
    ensures
        r == record_matches_filters(fields_model(md@), fields_model(filters@)),
{
    proof {
        crate::json::lemma_fields_model(filters@);
    }
    let mut i: usize = 0;
    while i < filters.len()
        invariant
            i <= filters.len(),
            fields_model(filters@).len() == filters@.len(),
            forall|j: int| 0 <= j < filters@.len() ==> fields_model(filters@)[j] == ((
            #[trigger] filters@[j]).0@, crate::json::json_model(filters@[j].1)),
            forall|j: int| 0 <= j < i ==> crate::json::fields_find(
                fields_model(md@),
                (#[trigger] fields_model(filters@)[j]).0,
            ) == Some(fields_model(filters@)[j].1),
        decreases filters.len() - i,
    {
        let found = fields_get(md, filters[i].0.as_str());
        match found {
            Some(v) => {
                if !json_value_eq(v, &filters[i].1) {
                    return false;
                }
            },
            None => {
                return false;
            },
        }
        i += 1;
    }
    true
}

impl VectorCollectionManager for MockQdrantAdapter {
    fn create_collection(&mut self, config: CollectionConfig) -> (r: Result<(), VectorError>)
        ensures
            r is Ok <==> !old(self).collections_view().contains_key(config@.name),
            r matches Err(e) ==> e matches VectorError::StorageFailed { .. },
    {
        proof {
            use_type_invariant(&*self);
            lemma_assoc_map_char(self.collections@);
            lemma_assoc_map_char(self.vectors@);
        }
        match find_key(&self.collections, config.name.as_str()) {
            Some(_) => Err(VectorError::storage_failed(make_string("collection already exists"))),
            None => {
                let ghost old_colls = self.collections@;
                let ghost old_tables = self.vectors@;
                let name = config.name.clone();
                let name2 = config.name.clone();
                let mut colls: Vec<(String, CollectionConfig)> = Vec::new();
                std::mem::swap(&mut colls, &mut self.collections);
                proof {
                    lemma_assoc_map_push(colls@, (name, config));
                }
                colls.push((name, config));
                std::mem::swap(&mut colls, &mut self.collections);
                let mut tables: Vec<(String, Table)> = Vec::new();
                std::mem::swap(&mut tables, &mut self.vectors);
                match find_key(&tables, name2.as_str()) {
                    Some(ci) => {
                        let _ = tables.remove(ci);
                        proof {
                            lemma_assoc_map_remove(old_tables, ci as int);
                        }
                    },
                    None => {},
                }
                let empty_table: Table = Vec::new();
                proof {
                    lemma_assoc_map_char(tables@);
                    lemma_assoc_map_push(tables@, (name2, empty_table));
                }
                tables.push((name2, empty_table));
                std::mem::swap(&mut tables, &mut self.vectors);
                proof {
                    let ov = tables_view(assoc_map(old_tables));
                    lemma_tables_view_insert(
                        assoc_map(old_tables).remove(self.vectors@.last().0@),
                        self.vectors@.last().0@,
                        self.vectors@.last().1@,
                    );
                    assert(assoc_map(self.vectors@.last().1@) =~= Map::<
                        Seq<char>,
                        VectorRecordModel,
                    >::empty());
                    assert(tables_view(assoc_map(self.vectors@)) =~= ov.insert(
                        self.vectors@.last().0@,
                        Map::empty(),
                    ));
                }
                Ok(())
            },
        }
    }

    fn delete_collection(&mut self, collection_name: &str) -> (r: Result<(), VectorError>)
        ensures
            r is Ok,
    {
        proof {
            use_type_invariant(&*self);
            lemma_assoc_map_char(self.collections@);
            lemma_assoc_map_char(self.vectors@);
        }
        let ghost old_colls = self.collections@;
        let ghost old_tables = self.vectors@;
        let mut colls: Vec<(String, CollectionConfig)> = Vec::new();
        std::mem::swap(&mut colls, &mut self.collections);
        match find_key(&colls, collection_name) {
            Some(ci) => {
                let _ = colls.remove(ci);
                proof {
                    lemma_assoc_map_remove(old_colls, ci as int);
                }
            },
            None => {
                proof {
                    assert(assoc_map(old_colls).remove(collection_name@) =~= assoc_map(
                        old_colls,
                    ));
                }
            },
        }
        std::mem::swap(&mut colls, &mut self.collections);
        let mut tables: Vec<(String, Table)> = Vec::new();
        std::mem::swap(&mut tables, &mut self.vectors);
        match find_key(&tables, collection_name) {
            Some(ci) => {
                let _ = tables.remove(ci);
                proof {
                    lemma_assoc_map_remove(old_tables, ci as int);
                    lemma_tables_view_remove(assoc_map(old_tables), collection_name@);
                }
            },
            None => {
                proof {
                    assert(assoc_map(old_tables).remove(collection_name@) =~= assoc_map(
                        old_tables,
                    ));
                    lemma_tables_view_remove(assoc_map(old_tables), collection_name@);
                }
            },
        }
        std::mem::swap(&mut tables, &mut self.vectors);
        Ok(())
    }

    fn list_collections(&self) -> (r: Result<Vec<CollectionConfig>, VectorError>)
        ensures
            r is Ok,
    {
        proof {
            use_type_invariant(self);
            lemma_assoc_map_char(self.collections@);
        }
        let mut out: Vec<CollectionConfig> = Vec::new();
        let mut i: usize = 0;
        while i < self.collections.len()
            invariant
                i <= self.collections@.len(),
                assoc_unique(self.collections@),
                forall|j: int| 0 <= j < self.collections@.len()
                    ==> (#[trigger] self.collections@[j]).0@ == self.collections@[j].1@.name,
                out@.len() == i,
                forall|j: int| 0 <= j < i ==> (#[trigger] out@[j])@ == self.collections@[j].1@,
                forall|j: int| 0 <= j < self.collections@.len()
                    ==> self.collections_view().contains_key((#[trigger] self.collections@[j]).0@)
                    && self.collections_view()[self.collections@[j].0@]
                    == self.collections@[j].1@,
                forall|j: int| 0 <= j < i ==> (#[trigger] out@[j])@.name
                    == self.collections@[j].0@,
            decreases self.collections@.len() - i,
        {
            out.push(self.collections[i].1.clone_config());
            i += 1;
        }
        proof {
            lemma_assoc_map_char(self.collections@);
        }
        Ok(out)
    }

    fn get_collection_info(&self, collection_name: &str) -> (r: Result<
        Option<CollectionConfig>,
        VectorError,
    >)
        ensures
            r is Ok,
    {
        proof {
            use_type_invariant(self);
            lemma_assoc_map_char(self.collections@);
        }
        match find_key(&self.collections, collection_name) {
            Some(ci) => Ok(Some(self.collections[ci].1.clone_config())),
            None => Ok(None),
        }
    }

    fn get_collection_stats(&self, collection_name: &str) -> (r: Result<
        Vec<(String, JsonValue)>,
        VectorError,
    >)
        ensures
            r is Ok <==> self.vectors_view().contains_key(collection_name@),
            r matches Err(e) ==> e matches VectorError::CollectionNotFound { .. },
            r matches Ok(stats) ==> ({
                let fm = fields_model(stats@);
                &&& crate::json::fields_find(fm, "status"@) == Some(
                    crate::json::JsonModel::Str("green"@),
                )
                &&& (self.vectors_view()[collection_name@].dom().len() <= i64::MAX
                    ==> crate::json::fields_find(fm, "vectors_count"@) == Some(
                    crate::json::JsonModel::Int(
                        self.vectors_view()[collection_name@].dom().len() as i64,
                    ),
                ))
            }),
    {
        proof {
            use_type_invariant(self);
            lemma_assoc_map_char(self.vectors@);
        }
        match find_key(&self.vectors, collection_name) {
            Some(ci) => {
                let table = &self.vectors[ci].1;
                proof {
                    lemma_assoc_map_char(table@);
                    assert(self.vectors_view()[collection_name@] == assoc_map(table@));
                }
                let count = table.len();
                let mut stats: Vec<(String, JsonValue)> = Vec::new();
                stats.push(
                    (
                        make_string("vectors_count"),
                        JsonValue::Int(#[verifier::truncate] (count as i64)),
                    ),
                );
                stats.push((make_string("status"), JsonValue::Str(make_string("green"))));
                proof {
                    reveal_strlit("vectors_count");
                    reveal_strlit("status");
                    crate::json::lemma_fields_model(stats@);
                    reveal_with_fuel(crate::json::fields_find, 3);
                    assert("vectors_count"@.len() == 13 && "status"@.len() == 6);
                    let fm = fields_model(stats@);
                    assert(fm[0].0 == "vectors_count"@);
                    assert(fm[1] == ("status"@, crate::json::JsonModel::Str("green"@)));
                    assert(fm.drop_first()[0] == fm[1]);
                    assert(fm.drop_first().len() == 1);
                    assert(crate::json::fields_find(fm, "status"@) == Some(
                        crate::json::JsonModel::Str("green"@),
                    ));
                }
                Ok(stats)
            },
            None => Err(VectorError::collection_not_found(make_string(collection_name))),
        }
    }
}

impl VectorStoreHealth for MockQdrantAdapter {
    fn is_healthy(&self) -> (r: Result<bool, VectorError>)
        ensures
            r matches Ok(healthy) && healthy == true,
    {
        Ok(true)
    }

    fn health_check(&self) -> (r: Result<Vec<(String, JsonValue)>, VectorError>)
        ensures
            r matches Ok(h) && crate::json::fields_find(fields_model(h@), "status"@) == Some(
                crate::json::JsonModel::Str("healthy"@),
            ),
    {
        let mut health: Vec<(String, JsonValue)> = Vec::new();
        health.push((make_string("status"), JsonValue::Str(make_string("healthy"))));
        health.push((make_string("type"), JsonValue::Str(make_string("mock"))));
        proof {
            crate::json::lemma_fields_model(health@);
            assert(fields_model(health@)[0] == ("status"@, crate::json::JsonModel::Str(
                "healthy"@,
            )));
            assert(crate::json::fields_find(fields_model(health@), "status"@) == Some(
                crate::json::JsonModel::Str("healthy"@),
            ));
        }
        Ok(health)
    }
}

impl VectorDatabase for MockQdrantAdapter {
    type Config = QdrantConfig;

    fn connect(config: QdrantConfig) -> (r: Result<MockQdrantAdapter, VectorError>)
        ensures
            r matches Ok(a) && a.collections_view() == Map::<
                Seq<char>,
                CollectionConfigModel,
            >::empty() && a.vectors_view() == Map::<
                Seq<char>,
                Map<Seq<char>, VectorRecordModel>,
            >::empty(),
    {
        Ok(MockQdrantAdapter::with_config(config))
    }

    fn connection_info(&self) -> (r: String)
    {
        make_string("Mock Qdrant Adapter (for testing)")
    }

    fn close(&mut self) -> (r: Result<(), VectorError>)
        ensures
            r is Ok,
    {
        Ok(())
    }

    fn supports_feature(&self, feature: &str) -> (r: bool)
        ensures
            r == (feature@ == "collections"@ || feature@ == "health_check"@ || feature@
                == "batch_operations"@ || feature@ == "filtering"@),
    {
        crate::json::str_eq(feature, "collections") || crate::json::str_eq(feature, "health_check")
            || crate::json::str_eq(feature, "batch_operations") || crate::json::str_eq(
            feature,
            "filtering",
        )
    }
}

} // verus!
