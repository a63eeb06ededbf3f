//! Serialization of migrations into the JSON-like value model.
//!
//! A migration is persisted in the history collection as a structured
//! payload; this module defines the layout (`migration_json`), a strict
//! reader (`dec_migration`) that accepts exactly that layout, and the
//! round-trip law: reading back a serialized migration reproduces the
//! structure field for field.
//!
//! A `u64` is stored as a two-limb object (upper and lower 32 bits), so
//! every value survives the signed 64-bit JSON integer exactly.

use vstd::prelude::*;

use crate::json::arr_model;
use crate::json::fields_model;
use crate::json::lemma_arr_model;
use crate::json::lemma_fields_model;
use crate::json::str_eq;
use crate::json::JsonModel;
use crate::json::JsonValue;
use crate::migration::changes_model;
use crate::migration::contracts_model;
use crate::migration::interactions_model;
use crate::migration::CollectionChange;
use crate::migration::CollectionChangeModel;
use crate::migration::MigrationMetadata;
use crate::migration::MigrationMetadataModel;
use crate::migration::PactContract;
use crate::migration::PactContractModel;
use crate::migration::PactInteraction;
use crate::migration::PactInteractionModel;
use crate::migration::ResponseStatus;
use crate::migration::SchemaMigration;
use crate::migration::SchemaMigrationModel;
use crate::migration::VectorOperation;
use crate::migration::VectorRequest;
use crate::migration::VectorRequestModel;
use crate::migration::VectorResponse;
use crate::migration::VectorResponseModel;
use crate::qdrant_errors::make_string;
use crate::vector::CollectionConfig;
use crate::vector::CollectionConfigModel;
use crate::vector::DistanceMetric;
use crate::version::Version;

verus! {

/// A `u64` as a two-limb object: upper and lower 32 bits.
pub open spec fn u64_limbs(x: u64) -> JsonModel {
    JsonModel::Obj(
        seq![
            ("hi"@, JsonModel::Int(((x as int) / 0x1_0000_0000) as i64)),
            ("lo"@, JsonModel::Int(((x as int) % 0x1_0000_0000) as i64)),
        ],
    )
}

/// Read a two-limb object back.
pub open spec fn dec_u64_limbs(v: JsonModel) -> Option<u64> {
    match v {
        JsonModel::Obj(fs) => if fs.len() == 2 && fs[0].0 == "hi"@ && fs[1].0 == "lo"@ && fs[0].1
            is Int && fs[1].1 is Int {
            let hi = fs[0].1->Int_0 as int;
            let lo = fs[1].1->Int_0 as int;
            if 0 <= hi < 0x1_0000_0000 && 0 <= lo < 0x1_0000_0000 {
                Some((hi * 0x1_0000_0000 + lo) as u64)
            } else {
                None
            }
        } else {
            None
        },
        _ => None,
    }
}

/// Reading limbs back gives the number stored.
pub proof fn lemma_u64_limbs_roundtrip(x: u64)
    ensures
        dec_u64_limbs(u64_limbs(x)) == Some(x),
{
    let xi = x as int;
    let b = 0x1_0000_0000;
    vstd::arithmetic::div_mod::lemma_fundamental_div_mod(xi, b);
    vstd::arithmetic::div_mod::lemma_remainder_lower(xi, b);
    vstd::arithmetic::div_mod::lemma_remainder_upper(xi, b);
    vstd::arithmetic::div_mod::lemma_div_pos_is_pos(xi, b);
    assert(xi / b < b) by {
        vstd::arithmetic::div_mod::lemma_multiply_divide_lt(xi, b, b);
    }
}

/// The rendered name of a distance metric.
pub open spec fn metric_name(m: DistanceMetric) -> Seq<char> {
    match m {
        DistanceMetric::Cosine => "cosine"@,
        DistanceMetric::Euclidean => "euclidean"@,
        DistanceMetric::DotProduct => "dot_product"@,
        DistanceMetric::Manhattan => "manhattan"@,
    }
}

/// Read a metric name back.
pub open spec fn dec_metric(s: Seq<char>) -> Option<DistanceMetric> {
    if s == "cosine"@ {
        Some(DistanceMetric::Cosine)
    } else if s == "euclidean"@ {
        Some(DistanceMetric::Euclidean)
    } else if s == "dot_product"@ {
        Some(DistanceMetric::DotProduct)
    } else if s == "manhattan"@ {
        Some(DistanceMetric::Manhattan)
    } else {
        None
    }
}

/// Reading a metric name back gives the metric.
pub proof fn lemma_metric_roundtrip(m: DistanceMetric)
    ensures
        dec_metric(metric_name(m)) == Some(m),
{
    reveal_strlit("cosine");
    reveal_strlit("euclidean");
    reveal_strlit("dot_product");
    reveal_strlit("manhattan");
    assert("cosine"@.len() == 6 && "euclidean"@.len() == 9 && "dot_product"@.len() == 11
        && "manhattan"@.len() == 9);
    assert("euclidean"@[0] == 'e' && "manhattan"@[0] == 'm');
}

/// The rendered name of a contract operation.
pub open spec fn operation_name(o: VectorOperation) -> Seq<char> {
    match o {
        VectorOperation::StoreVector => "store_vector"@,
        VectorOperation::GetVector => "get_vector"@,
        VectorOperation::SearchSimilar => "search_similar"@,
        VectorOperation::DeleteVector => "delete_vector"@,
        VectorOperation::CreateCollection => "create_collection"@,
        VectorOperation::DeleteCollection => "delete_collection"@,
        VectorOperation::ListCollections => "list_collections"@,
    }
}

/// Read an operation name back.
pub open spec fn dec_operation(s: Seq<char>) -> Option<VectorOperation> {
    if s == "store_vector"@ {
        Some(VectorOperation::StoreVector)
    } else if s == "get_vector"@ {
        Some(VectorOperation::GetVector)
    } else if s == "search_similar"@ {
        Some(VectorOperation::SearchSimilar)
    } else if s == "delete_vector"@ {
        Some(VectorOperation::DeleteVector)
    } else if s == "create_collection"@ {
        Some(VectorOperation::CreateCollection)
    } else if s == "delete_collection"@ {
        Some(VectorOperation::DeleteCollection)
    } else if s == "list_collections"@ {
        Some(VectorOperation::ListCollections)
    } else {
        None
    }
}

/// Reading an operation name back gives the operation.
pub proof fn lemma_operation_roundtrip(o: VectorOperation)
    ensures
        dec_operation(operation_name(o)) == Some(o),
{
    reveal_strlit("store_vector");
    reveal_strlit("get_vector");
    reveal_strlit("search_similar");
    reveal_strlit("delete_vector");
    reveal_strlit("create_collection");
    reveal_strlit("delete_collection");
    reveal_strlit("list_collections");
    assert("store_vector"@.len() == 12 && "get_vector"@.len() == 10 && "search_similar"@.len()
        == 14 && "delete_vector"@.len() == 13 && "create_collection"@.len() == 17
        && "delete_collection"@.len() == 17 && "list_collections"@.len() == 16);
    assert("create_collection"@[0] == 'c' && "delete_collection"@[0] == 'd');
    assert("delete_vector"@[0] == 'd' && "delete_collection"@[7] == 'c' && "delete_vector"@[7]
        == 'v');
}

/// The rendered name of an expected outcome class.
pub open spec fn status_name(s: ResponseStatus) -> Seq<char> {
    match s {
        ResponseStatus::Success => "success"@,
        ResponseStatus::Error => "error"@,
        ResponseStatus::NotFound => "not_found"@,
    }
}

/// Read an outcome-class name back.
pub open spec fn dec_status(s: Seq<char>) -> Option<ResponseStatus> {
    if s == "success"@ {
        Some(ResponseStatus::Success)
    } else if s == "error"@ {
        Some(ResponseStatus::Error)
    } else if s == "not_found"@ {
        Some(ResponseStatus::NotFound)
    } else {
        None
    }
}

/// Reading an outcome-class name back gives the class.
pub proof fn lemma_status_roundtrip(s: ResponseStatus)
    ensures
        dec_status(status_name(s)) == Some(s),
{
    reveal_strlit("success");
    reveal_strlit("error");
    reveal_strlit("not_found");
    assert("success"@.len() == 7 && "error"@.len() == 5 && "not_found"@.len() == 9);
}

/// A version as an object of three limb-encoded numbers.
pub open spec fn version_json(v: Version) -> JsonModel {
    JsonModel::Obj(
        seq![
            ("major"@, u64_limbs(v.major)),
            ("minor"@, u64_limbs(v.minor)),
            ("patch"@, u64_limbs(v.patch)),
        ],
    )
}

/// Read a version object back.
pub open spec fn dec_version(v: JsonModel) -> Option<Version> {
    match v {
        JsonModel::Obj(fs) => if fs.len() == 3 && fs[0].0 == "major"@ && fs[1].0 == "minor"@
            && fs[2].0 == "patch"@ {
            match (dec_u64_limbs(fs[0].1), dec_u64_limbs(fs[1].1), dec_u64_limbs(fs[2].1)) {
                (Some(major), Some(minor), Some(patch)) => Some(Version { major, minor, patch }),
                _ => None,
            }
        } else {
            None
        },
        _ => None,
    }
}

/// Reading a version object back gives the version.
pub proof fn lemma_version_roundtrip(v: Version)
    ensures
        dec_version(version_json(v)) == Some(v),
{
    lemma_u64_limbs_roundtrip(v.major);
    lemma_u64_limbs_roundtrip(v.minor);
    lemma_u64_limbs_roundtrip(v.patch);
}

/// A collection configuration as an object.
pub open spec fn config_json(c: CollectionConfigModel) -> JsonModel {
    JsonModel::Obj(
        seq![
            ("name"@, JsonModel::Str(c.name)),
            ("dimension"@, u64_limbs(c.dimension as u64)),
            ("distance_metric"@, JsonModel::Str(metric_name(c.distance_metric))),
        ],
    )
}

/// Read a collection configuration back.
pub open spec fn dec_config(v: JsonModel) -> Option<CollectionConfigModel> {
    match v {
        JsonModel::Obj(fs) => if fs.len() == 3 && fs[0].0 == "name"@ && fs[1].0 == "dimension"@
            && fs[2].0 == "distance_metric"@ && fs[0].1 is Str && fs[2].1 is Str {
            match (dec_u64_limbs(fs[1].1), dec_metric(fs[2].1->Str_0)) {
                (Some(d), Some(m)) => if d <= usize::MAX as u64 {
                    Some(
                        CollectionConfigModel {
                            name: fs[0].1->Str_0,
                            dimension: d as usize,
                            distance_metric: m,
                        },
                    )
                } else {
                    None
                },
                _ => None,
            }
        } else {
            None
        },
        _ => None,
    }
}

/// Reading a collection configuration back gives the configuration.
pub proof fn lemma_config_roundtrip(c: CollectionConfigModel)
    ensures
        dec_config(config_json(c)) == Some(c),
{
    lemma_u64_limbs_roundtrip(c.dimension as u64);
    lemma_metric_roundtrip(c.distance_metric);
}

/// An optional dimension: null, or a limb-encoded number.
pub open spec fn opt_usize_json(o: Option<usize>) -> JsonModel {
    match o {
        None => JsonModel::Null,
        Some(d) => u64_limbs(d as u64),
    }
}

/// Read an optional dimension back.
pub open spec fn dec_opt_usize(v: JsonModel) -> Option<Option<usize>> {
    match v {
        JsonModel::Null => Some(None),
        _ => match dec_u64_limbs(v) {
            Some(d) => if d <= usize::MAX as u64 {
                Some(Some(d as usize))
            } else {
                None
            },
            None => None,
        },
    }
}

/// An optional metric: null, or a metric name.
pub open spec fn opt_metric_json(o: Option<DistanceMetric>) -> JsonModel {
    match o {
        None => JsonModel::Null,
        Some(m) => JsonModel::Str(metric_name(m)),
    }
}

/// Read an optional metric back.
pub open spec fn dec_opt_metric(v: JsonModel) -> Option<Option<DistanceMetric>> {
    match v {
        JsonModel::Null => Some(None),
        JsonModel::Str(s) => match dec_metric(s) {
            Some(m) => Some(Some(m)),
            None => None,
        },
        _ => None,
    }
}

/// One collection change as a kind-tagged object.
pub open spec fn change_json(c: CollectionChangeModel) -> JsonModel {
    match c {
        CollectionChangeModel::CreateCollection(cfg) => JsonModel::Obj(
            seq![("kind"@, JsonModel::Str("create_collection"@)), ("config"@, config_json(cfg))],
        ),
        CollectionChangeModel::DeleteCollection(n) => JsonModel::Obj(
            seq![("kind"@, JsonModel::Str("delete_collection"@)), ("name"@, JsonModel::Str(n))],
        ),
        CollectionChangeModel::UpdateCollection { name, dimension_change, distance_metric_change }
            => JsonModel::Obj(
            seq![
                ("kind"@, JsonModel::Str("update_collection"@)),
                ("name"@, JsonModel::Str(name)),
                ("dimension_change"@, opt_usize_json(dimension_change)),
                ("distance_metric_change"@, opt_metric_json(distance_metric_change)),
            ],
        ),
        CollectionChangeModel::RenameCollection { old_name, new_name } => JsonModel::Obj(
            seq![
                ("kind"@, JsonModel::Str("rename_collection"@)),
                ("old_name"@, JsonModel::Str(old_name)),
                ("new_name"@, JsonModel::Str(new_name)),
            ],
        ),
        CollectionChangeModel::AddIndex { collection, field, index_type } => JsonModel::Obj(
            seq![
                ("kind"@, JsonModel::Str("add_index"@)),
                ("collection"@, JsonModel::Str(collection)),
                ("field"@, JsonModel::Str(field)),
                ("index_type"@, JsonModel::Str(index_name(index_type))),
            ],
        ),
        CollectionChangeModel::RemoveIndex { collection, field } => JsonModel::Obj(
            seq![
                ("kind"@, JsonModel::Str("remove_index"@)),
                ("collection"@, JsonModel::Str(collection)),
                ("field"@, JsonModel::Str(field)),
            ],
        ),
    }
}

/// The rendered name of an index kind.
pub open spec fn index_name(t: crate::migration::IndexType) -> Seq<char> {
    match t {
        crate::migration::IndexType::Text => "text"@,
        crate::migration::IndexType::Numeric => "numeric"@,
        crate::migration::IndexType::Keyword => "keyword"@,
        crate::migration::IndexType::Geo => "geo"@,
        crate::migration::IndexType::Boolean => "boolean"@,
    }
}

/// Read an index-kind name back.
pub open spec fn dec_index(s: Seq<char>) -> Option<crate::migration::IndexType> {
    if s == "text"@ {
        Some(crate::migration::IndexType::Text)
    } else if s == "numeric"@ {
        Some(crate::migration::IndexType::Numeric)
    } else if s == "keyword"@ {
        Some(crate::migration::IndexType::Keyword)
    } else if s == "geo"@ {
        Some(crate::migration::IndexType::Geo)
    } else if s == "boolean"@ {
        Some(crate::migration::IndexType::Boolean)
    } else {
        None
    }
}

/// Reading an index-kind name back gives the kind.
pub proof fn lemma_index_roundtrip(t: crate::migration::IndexType)
    ensures
        dec_index(index_name(t)) == Some(t),
{
    reveal_strlit("text");
    reveal_strlit("numeric");
    reveal_strlit("keyword");
    reveal_strlit("geo");
    reveal_strlit("boolean");
    assert("text"@.len() == 4 && "numeric"@.len() == 7 && "keyword"@.len() == 7 && "geo"@.len()
        == 3 && "boolean"@.len() == 7);
    assert("numeric"@[0] == 'n' && "keyword"@[0] == 'k' && "boolean"@[0] == 'b');
}

/// Read a kind-tagged change object back.
pub open spec fn dec_change(v: JsonModel) -> Option<CollectionChangeModel> {
    match v {
        JsonModel::Obj(fs) => if fs.len() >= 1 && fs[0].0 == "kind"@ && fs[0].1 is Str {
            let kind = fs[0].1->Str_0;
            if kind == "create_collection"@ {
                if fs.len() == 2 && fs[1].0 == "config"@ {
                    match dec_config(fs[1].1) {
                        Some(cfg) => Some(CollectionChangeModel::CreateCollection(cfg)),
                        None => None,
                    }
                } else {
                    None
                }
            } else if kind == "delete_collection"@ {
                if fs.len() == 2 && fs[1].0 == "name"@ && fs[1].1 is Str {
                    Some(CollectionChangeModel::DeleteCollection(fs[1].1->Str_0))
                } else {
                    None
                }
            } else if kind == "update_collection"@ {
                if fs.len() == 4 && fs[1].0 == "name"@ && fs[1].1 is Str && fs[2].0
                    == "dimension_change"@ && fs[3].0 == "distance_metric_change"@ {
                    match (dec_opt_usize(fs[2].1), dec_opt_metric(fs[3].1)) {
                        (Some(d), Some(m)) => Some(
                            CollectionChangeModel::UpdateCollection {
                                name: fs[1].1->Str_0,
                                dimension_change: d,
                                distance_metric_change: m,
                            },
                        ),
                        _ => None,
                    }
                } else {
                    None
                }
            } else if kind == "rename_collection"@ {
                if fs.len() == 3 && fs[1].0 == "old_name"@ && fs[1].1 is Str && fs[2].0
                    == "new_name"@ && fs[2].1 is Str {
                    Some(
                        CollectionChangeModel::RenameCollection {
                            old_name: fs[1].1->Str_0,
                            new_name: fs[2].1->Str_0,
                        },
                    )
                } else {
                    None
                }
            } else if kind == "add_index"@ {
                if fs.len() == 4 && fs[1].0 == "collection"@ && fs[1].1 is Str && fs[2].0
                    == "field"@ && fs[2].1 is Str && fs[3].0 == "index_type"@ && fs[3].1 is Str {
                    match dec_index(fs[3].1->Str_0) {
                        Some(t) => Some(
                            CollectionChangeModel::AddIndex {
                                collection: fs[1].1->Str_0,
                                field: fs[2].1->Str_0,
                                index_type: t,
                            },
                        ),
                        None => None,
                    }
                } else {
                    None
                }
            } else if kind == "remove_index"@ {
                if fs.len() == 3 && fs[1].0 == "collection"@ && fs[1].1 is Str && fs[2].0
                    == "field"@ && fs[2].1 is Str {
                    Some(
                        CollectionChangeModel::RemoveIndex {
                            collection: fs[1].1->Str_0,
                            field: fs[2].1->Str_0,
                        },
                    )
                } else {
                    None
                }
            } else {
                None
            }
        } else {
            None
        },
        _ => None,
    }
}

/// Reading a change object back gives the change.
pub proof fn lemma_change_roundtrip(c: CollectionChangeModel)
    ensures
        dec_change(change_json(c)) == Some(c),
{
    reveal_strlit("create_collection");
    reveal_strlit("delete_collection");
    reveal_strlit("update_collection");
    reveal_strlit("rename_collection");
    reveal_strlit("add_index");
    reveal_strlit("remove_index");
    assert("create_collection"@.len() == 17 && "delete_collection"@.len() == 17
        && "update_collection"@.len() == 17 && "rename_collection"@.len() == 17
        && "add_index"@.len() == 9 && "remove_index"@.len() == 12);
    assert("create_collection"@[0] == 'c' && "delete_collection"@[0] == 'd'
        && "update_collection"@[0] == 'u' && "rename_collection"@[0] == 'r');
    match c {
        CollectionChangeModel::CreateCollection(cfg) => {
            lemma_config_roundtrip(cfg);
        },
        CollectionChangeModel::UpdateCollection { dimension_change, distance_metric_change, .. }
            => {
            match dimension_change {
                Some(d) => {
                    lemma_u64_limbs_roundtrip(d as u64);
                },
                None => {},
            }
            match distance_metric_change {
                Some(m) => {
                    lemma_metric_roundtrip(m);
                },
                None => {},
            }
        },
        CollectionChangeModel::AddIndex { index_type, .. } => {
            lemma_index_roundtrip(index_type);
        },
        _ => {},
    }
}

/// A change list, element-wise.
pub open spec fn changes_json(s: Seq<CollectionChangeModel>) -> Seq<JsonModel> {
    Seq::new(s.len(), |i: int| change_json(s[i]))
}

/// Read a change list back, front to back.
pub open spec fn dec_changes(vs: Seq<JsonModel>) -> Option<Seq<CollectionChangeModel>>
    decreases vs.len(),
{
    if vs.len() == 0 {
        Some(Seq::empty())
    } else {
        match (dec_change(vs[0]), dec_changes(vs.drop_first())) {
            (Some(c), Some(rest)) => Some(seq![c] + rest),
            _ => None,
        }
    }
}

/// Reading a change list back gives the list.
pub proof fn lemma_changes_roundtrip(s: Seq<CollectionChangeModel>)
    ensures
        dec_changes(changes_json(s)) == Some(s),
    decreases s.len(),
{
    if s.len() == 0 {
        assert(changes_json(s) =~= Seq::<JsonModel>::empty());
    } else {
        lemma_change_roundtrip(s[0]);
        lemma_changes_roundtrip(s.drop_first());
        assert(changes_json(s).drop_first() =~= changes_json(s.drop_first()));
        assert(seq![s[0]] + s.drop_first() =~= s);
    }
}

/// A dependency list, element-wise.
pub open spec fn versions_json(s: Seq<Version>) -> Seq<JsonModel> {
    Seq::new(s.len(), |i: int| version_json(s[i]))
}

/// Read a dependency list back.
pub open spec fn dec_versions(vs: Seq<JsonModel>) -> Option<Seq<Version>>
    decreases vs.len(),
{
    if vs.len() == 0 {
        Some(Seq::empty())
    } else {
        match (dec_version(vs[0]), dec_versions(vs.drop_first())) {
            (Some(v), Some(rest)) => Some(seq![v] + rest),
            _ => None,
        }
    }
}

/// Reading a dependency list back gives the list.
pub proof fn lemma_versions_roundtrip(s: Seq<Version>)
    ensures
        dec_versions(versions_json(s)) == Some(s),
    decreases s.len(),
{
    if s.len() == 0 {
        assert(versions_json(s) =~= Seq::<JsonModel>::empty());
    } else {
        lemma_version_roundtrip(s[0]);
        lemma_versions_roundtrip(s.drop_first());
        assert(versions_json(s).drop_first() =~= versions_json(s.drop_first()));
        assert(seq![s[0]] + s.drop_first() =~= s);
    }
}

/// Migration metadata as an object.
pub open spec fn metadata_json(m: MigrationMetadataModel) -> JsonModel {
    JsonModel::Obj(
        seq![
            ("author"@, JsonModel::Str(m.author)),
            ("created_at"@, JsonModel::Int(m.created_at)),
            ("description"@, JsonModel::Str(m.description)),
            ("dependencies"@, JsonModel::Arr(versions_json(m.dependencies))),
            ("reversible"@, JsonModel::Bool(m.reversible)),
            ("breaking_change"@, JsonModel::Bool(m.breaking_change)),
        ],
    )
}

/// Read migration metadata back.
pub open spec fn dec_metadata(v: JsonModel) -> Option<MigrationMetadataModel> {
    match v {
        JsonModel::Obj(fs) => if fs.len() == 6 && fs[0].0 == "author"@ && fs[1].0 == "created_at"@
            && fs[2].0 == "description"@ && fs[3].0 == "dependencies"@ && fs[4].0 == "reversible"@
            && fs[5].0 == "breaking_change"@ && fs[0].1 is Str && fs[1].1 is Int && fs[2].1 is Str
            && fs[3].1 is Arr && fs[4].1 is Bool && fs[5].1 is Bool {
            match dec_versions(fs[3].1->Arr_0) {
                Some(deps) => Some(
                    MigrationMetadataModel {
                        author: fs[0].1->Str_0,
                        created_at: fs[1].1->Int_0,
                        description: fs[2].1->Str_0,
                        dependencies: deps,
                        reversible: fs[4].1->Bool_0,
                        breaking_change: fs[5].1->Bool_0,
                    },
                ),
                None => None,
            }
        } else {
            None
        },
        _ => None,
    }
}

/// Reading metadata back gives the metadata.
pub proof fn lemma_metadata_roundtrip(m: MigrationMetadataModel)
    ensures
        dec_metadata(metadata_json(m)) == Some(m),
{
    lemma_versions_roundtrip(m.dependencies);
}

/// Optional response data: null, or the value boxed in a one-element
/// array (so a null datum stays distinguishable from no datum).
pub open spec fn opt_data_json(o: Option<JsonModel>) -> JsonModel {
    match o {
        None => JsonModel::Null,
        Some(v) => JsonModel::Arr(seq![v]),
    }
}

/// Read optional response data back.
pub open spec fn dec_opt_data(v: JsonModel) -> Option<Option<JsonModel>> {
    match v {
        JsonModel::Null => Some(None),
        JsonModel::Arr(vs) => if vs.len() == 1 {
            Some(Some(vs[0]))
        } else {
            None
        },
        _ => None,
    }
}

/// Optional error text: null, or the text boxed in a one-element array.
pub open spec fn opt_err_json(o: Option<Seq<char>>) -> JsonModel {
    match o {
        None => JsonModel::Null,
        Some(s) => JsonModel::Arr(seq![JsonModel::Str(s)]),
    }
}

/// Read optional error text back.
pub open spec fn dec_opt_err(v: JsonModel) -> Option<Option<Seq<char>>> {
    match v {
        JsonModel::Null => Some(None),
        JsonModel::Arr(vs) => if vs.len() == 1 && vs[0] is Str {
            Some(Some(vs[0]->Str_0))
        } else {
            None
        },
        _ => None,
    }
}

/// A contract request as an object; the free-form parameters are
/// embedded as they are.
pub open spec fn request_json(r: VectorRequestModel) -> JsonModel {
    JsonModel::Obj(
        seq![
            ("operation"@, JsonModel::Str(operation_name(r.operation))),
            ("collection"@, JsonModel::Str(r.collection)),
            ("parameters"@, r.parameters),
        ],
    )
}

/// Read a contract request back.
pub open spec fn dec_request(v: JsonModel) -> Option<VectorRequestModel> {
    match v {
        JsonModel::Obj(fs) => if fs.len() == 3 && fs[0].0 == "operation"@ && fs[1].0
            == "collection"@ && fs[2].0 == "parameters"@ && fs[0].1 is Str && fs[1].1 is Str {
            match dec_operation(fs[0].1->Str_0) {
                Some(op) => Some(
                    VectorRequestModel {
                        operation: op,
                        collection: fs[1].1->Str_0,
                        parameters: fs[2].1,
                    },
                ),
                None => None,
            }
        } else {
            None
        },
        _ => None,
    }
}

/// A contract response as an object.
pub open spec fn response_json(r: VectorResponseModel) -> JsonModel {
    JsonModel::Obj(
        seq![
            ("status"@, JsonModel::Str(status_name(r.status))),
            ("data"@, opt_data_json(r.data)),
            ("error"@, opt_err_json(r.error)),
        ],
    )
}

/// Read a contract response back.
pub open spec fn dec_response(v: JsonModel) -> Option<VectorResponseModel> {
    match v {
        JsonModel::Obj(fs) => if fs.len() == 3 && fs[0].0 == "status"@ && fs[1].0 == "data"@
            && fs[2].0 == "error"@ && fs[0].1 is Str {
            match (dec_status(fs[0].1->Str_0), dec_opt_data(fs[1].1), dec_opt_err(fs[2].1)) {
                (Some(st), Some(d), Some(e)) => Some(
                    VectorResponseModel { status: st, data: d, error: e },
                ),
                _ => None,
            }
        } else {
            None
        },
        _ => None,
    }
}

/// An interaction as an object.
pub open spec fn interaction_json(i: PactInteractionModel) -> JsonModel {
    JsonModel::Obj(
        seq![
            ("description"@, JsonModel::Str(i.description)),
            ("request"@, request_json(i.request)),
            ("response"@, response_json(i.response)),
        ],
    )
}

/// Read an interaction back.
pub open spec fn dec_interaction(v: JsonModel) -> Option<PactInteractionModel> {
    match v {
        JsonModel::Obj(fs) => if fs.len() == 3 && fs[0].0 == "description"@ && fs[1].0
            == "request"@ && fs[2].0 == "response"@ && fs[0].1 is Str {
            match (dec_request(fs[1].1), dec_response(fs[2].1)) {
                (Some(rq), Some(rs)) => Some(
                    PactInteractionModel {
                        description: fs[0].1->Str_0,
                        request: rq,
                        response: rs,
                    },
                ),
                _ => None,
            }
        } else {
            None
        },
        _ => None,
    }
}

/// Reading an interaction back gives the interaction.
pub proof fn lemma_interaction_roundtrip(i: PactInteractionModel)
    ensures
        dec_interaction(interaction_json(i)) == Some(i),
{
    lemma_operation_roundtrip(i.request.operation);
    lemma_status_roundtrip(i.response.status);
}

/// An interaction list, element-wise.
pub open spec fn interactions_json(s: Seq<PactInteractionModel>) -> Seq<JsonModel> {
    Seq::new(s.len(), |i: int| interaction_json(s[i]))
}

/// Read an interaction list back.
pub open spec fn dec_interactions(vs: Seq<JsonModel>) -> Option<Seq<PactInteractionModel>>
    decreases vs.len(),
{
    if vs.len() == 0 {
        Some(Seq::empty())
    } else {
        match (dec_interaction(vs[0]), dec_interactions(vs.drop_first())) {
            (Some(i), Some(rest)) => Some(seq![i] + rest),
            _ => None,
        }
    }
}

/// Reading an interaction list back gives the list.
pub proof fn lemma_interactions_roundtrip(s: Seq<PactInteractionModel>)
    ensures
        dec_interactions(interactions_json(s)) == Some(s),
    decreases s.len(),
{
    if s.len() == 0 {
        assert(interactions_json(s) =~= Seq::<JsonModel>::empty());
    } else {
        lemma_interaction_roundtrip(s[0]);
        lemma_interactions_roundtrip(s.drop_first());
        assert(interactions_json(s).drop_first() =~= interactions_json(s.drop_first()));
        assert(seq![s[0]] + s.drop_first() =~= s);
    }
}

/// A contract as an object.
pub open spec fn contract_json(c: PactContractModel) -> JsonModel {
    JsonModel::Obj(
        seq![
            ("consumer"@, JsonModel::Str(c.consumer)),
            ("provider"@, JsonModel::Str(c.provider)),
            ("contract_path"@, JsonModel::Str(c.contract_path)),
            ("interactions"@, JsonModel::Arr(interactions_json(c.interactions))),
        ],
    )
}

/// Read a contract back.
pub open spec fn dec_contract(v: JsonModel) -> Option<PactContractModel> {
    match v {
        JsonModel::Obj(fs) => if fs.len() == 4 && fs[0].0 == "consumer"@ && fs[1].0 == "provider"@
            && fs[2].0 == "contract_path"@ && fs[3].0 == "interactions"@ && fs[0].1 is Str
            && fs[1].1 is Str && fs[2].1 is Str && fs[3].1 is Arr {
            match dec_interactions(fs[3].1->Arr_0) {
                Some(is) => Some(
                    PactContractModel {
                        consumer: fs[0].1->Str_0,
                        provider: fs[1].1->Str_0,
                        contract_path: fs[2].1->Str_0,
                        interactions: is,
                    },
                ),
                None => None,
            }
        } else {
            None
        },
        _ => None,
    }
}

/// Reading a contract back gives the contract.
pub proof fn lemma_contract_roundtrip(c: PactContractModel)
    ensures
        dec_contract(contract_json(c)) == Some(c),
{
    lemma_interactions_roundtrip(c.interactions);
}

/// A contract list, element-wise.
pub open spec fn contracts_json(s: Seq<PactContractModel>) -> Seq<JsonModel> {
    Seq::new(s.len(), |i: int| contract_json(s[i]))
}

/// Read a contract list back.
pub open spec fn dec_contracts(vs: Seq<JsonModel>) -> Option<Seq<PactContractModel>>
    decreases vs.len(),
{
    if vs.len() == 0 {
        Some(Seq::empty())
    } else {
        match (dec_contract(vs[0]), dec_contracts(vs.drop_first())) {
            (Some(c), Some(rest)) => Some(seq![c] + rest),
            _ => None,
        }
    }
}

/// Reading a contract list back gives the list.
pub proof fn lemma_contracts_roundtrip(s: Seq<PactContractModel>)
    ensures
        dec_contracts(contracts_json(s)) == Some(s),
    decreases s.len(),
{
    if s.len() == 0 {
        assert(contracts_json(s) =~= Seq::<JsonModel>::empty());
    } else {
        lemma_contract_roundtrip(s[0]);
        lemma_contracts_roundtrip(s.drop_first());
        assert(contracts_json(s).drop_first() =~= contracts_json(s.drop_first()));
        assert(seq![s[0]] + s.drop_first() =~= s);
    }
}

/// The persisted layout of a whole migration.
pub open spec fn migration_json(m: SchemaMigrationModel) -> JsonModel {
    JsonModel::Obj(
        seq![
            ("version"@, version_json(m.version)),
            ("name"@, JsonModel::Str(m.name)),
            ("collection_changes"@, JsonModel::Arr(changes_json(m.collection_changes))),
            ("metadata"@, metadata_json(m.metadata)),
            ("pact_contracts"@, JsonModel::Arr(contracts_json(m.pact_contracts))),
        ],
    )
}

/// Read a whole migration back.
pub open spec fn dec_migration(v: JsonModel) -> Option<SchemaMigrationModel> {
    match v {
        JsonModel::Obj(fs) => if fs.len() == 5 && fs[0].0 == "version"@ && fs[1].0 == "name"@
            && fs[2].0 == "collection_changes"@ && fs[3].0 == "metadata"@ && fs[4].0
            == "pact_contracts"@ && fs[1].1 is Str && fs[2].1 is Arr && fs[4].1 is Arr {
            match (
                dec_version(fs[0].1),
                dec_changes(fs[2].1->Arr_0),
                dec_metadata(fs[3].1),
                dec_contracts(fs[4].1->Arr_0),
            ) {
                (Some(ver), Some(chs), Some(md), Some(cts)) => Some(
                    SchemaMigrationModel {
                        version: ver,
                        name: fs[1].1->Str_0,
                        collection_changes: chs,
                        metadata: md,
                        pact_contracts: cts,
                    },
                ),
                _ => None,
            }
        } else {
            None
        },
        _ => None,
    }
}

/// LAW: round-trip — reading back a serialized migration reproduces an
/// identical structure: version, changes, metadata and contracts agree
/// field for field.
pub proof fn lemma_migration_roundtrip(m: SchemaMigrationModel)
    ensures
        dec_migration(migration_json(m)) == Some(m),
{
    lemma_version_roundtrip(m.version);
    lemma_changes_roundtrip(m.collection_changes);
    lemma_metadata_roundtrip(m.metadata);
    lemma_contracts_roundtrip(m.pact_contracts);
}

/// Build a one-field object.
pub(crate) fn obj1(k1: &str, v1: JsonValue) -> (r: JsonValue)
    ensures
        r@ == JsonModel::Obj(seq![(k1@, v1@)]),
{
    let mut fs: Vec<(String, JsonValue)> = Vec::new();
    fs.push((make_string(k1), v1));
    proof {
        lemma_fields_model(fs@);
        assert(fields_model(fs@) =~= seq![(k1@, v1@)]);
    }
    JsonValue::Object(fs)
}

/// Build a two-field object.
pub(crate) fn obj2(k1: &str, v1: JsonValue, k2: &str, v2: JsonValue) -> (r: JsonValue)
    ensures
        r@ == JsonModel::Obj(seq![(k1@, v1@), (k2@, v2@)]),
{
    let mut fs: Vec<(String, JsonValue)> = Vec::new();
    fs.push((make_string(k1), v1));
    fs.push((make_string(k2), v2));
    proof {
        lemma_fields_model(fs@);
        assert(fields_model(fs@) =~= seq![(k1@, v1@), (k2@, v2@)]);
    }
    JsonValue::Object(fs)
}

/// Build a three-field object.
pub(crate) fn obj3(k1: &str, v1: JsonValue, k2: &str, v2: JsonValue, k3: &str, v3: JsonValue) -> (r:
    JsonValue)
    ensures
        r@ == JsonModel::Obj(seq![(k1@, v1@), (k2@, v2@), (k3@, v3@)]),
{
    let mut fs: Vec<(String, JsonValue)> = Vec::new();
    fs.push((make_string(k1), v1));
    fs.push((make_string(k2), v2));
    fs.push((make_string(k3), v3));
    proof {
        lemma_fields_model(fs@);
        assert(fields_model(fs@) =~= seq![(k1@, v1@), (k2@, v2@), (k3@, v3@)]);
    }
    JsonValue::Object(fs)
}

/// Build a four-field object.
pub(crate) fn obj4(
    k1: &str,
    v1: JsonValue,
    k2: &str,
    v2: JsonValue,
    k3: &str,
    v3: JsonValue,
    k4: &str,
    v4: JsonValue,
) -> (r: JsonValue)
    ensures
        r@ == JsonModel::Obj(seq![(k1@, v1@), (k2@, v2@), (k3@, v3@), (k4@, v4@)]),
{
    let mut fs: Vec<(String, JsonValue)> = Vec::new();
    fs.push((make_string(k1), v1));
    fs.push((make_string(k2), v2));
    fs.push((make_string(k3), v3));
    fs.push((make_string(k4), v4));
    proof {
        lemma_fields_model(fs@);
        assert(fields_model(fs@) =~= seq![(k1@, v1@), (k2@, v2@), (k3@, v3@), (k4@, v4@)]);
    }
    JsonValue::Object(fs)
}

/// Build a five-field object.
pub(crate) fn obj5(
    k1: &str,
    v1: JsonValue,
    k2: &str,
    v2: JsonValue,
    k3: &str,
    v3: JsonValue,
    k4: &str,
    v4: JsonValue,
    k5: &str,
    v5: JsonValue,
) -> (r: JsonValue)
    ensures
        r@ == JsonModel::Obj(
            seq![(k1@, v1@), (k2@, v2@), (k3@, v3@), (k4@, v4@), (k5@, v5@)],
        ),
{
    let mut fs: Vec<(String, JsonValue)> = Vec::new();
    fs.push((make_string(k1), v1));
    fs.push((make_string(k2), v2));
    fs.push((make_string(k3), v3));
    fs.push((make_string(k4), v4));
    fs.push((make_string(k5), v5));
    proof {
        lemma_fields_model(fs@);
        assert(fields_model(fs@) =~= seq![
            (k1@, v1@),
            (k2@, v2@),
            (k3@, v3@),
            (k4@, v4@),
            (k5@, v5@),
        ]);
    }
    JsonValue::Object(fs)
}

/// Build a six-field object.
pub(crate) fn obj6(
    k1: &str,
    v1: JsonValue,
    k2: &str,
    v2: JsonValue,
    k3: &str,
    v3: JsonValue,
    k4: &str,
    v4: JsonValue,
    k5: &str,
    v5: JsonValue,
    k6: &str,
    v6: JsonValue,
) -> (r: JsonValue)
    ensures
        r@ == JsonModel::Obj(
            seq![(k1@, v1@), (k2@, v2@), (k3@, v3@), (k4@, v4@), (k5@, v5@), (k6@, v6@)],
        ),
{
    let mut fs: Vec<(String, JsonValue)> = Vec::new();
    fs.push((make_string(k1), v1));
    fs.push((make_string(k2), v2));
    fs.push((make_string(k3), v3));
    fs.push((make_string(k4), v4));
    fs.push((make_string(k5), v5));
    fs.push((make_string(k6), v6));
    proof {
        lemma_fields_model(fs@);
        assert(fields_model(fs@) =~= seq![
            (k1@, v1@),
            (k2@, v2@),
            (k3@, v3@),
            (k4@, v4@),
            (k5@, v5@),
            (k6@, v6@),
        ]);
    }
    JsonValue::Object(fs)
}

/// Encode a `u64` as a two-limb object.
pub fn u64_to_json(x: u64) -> (r: JsonValue)
    ensures
        r@ == u64_limbs(x),
{
    proof {
        vstd::arithmetic::div_mod::lemma_div_pos_is_pos(x as int, 0x1_0000_0000);
        assert((x as int) / 0x1_0000_0000 < 0x1_0000_0000) by {
            vstd::arithmetic::div_mod::lemma_multiply_divide_lt(
                x as int,
                0x1_0000_0000,
                0x1_0000_0000,
            );
        }
        vstd::arithmetic::div_mod::lemma_remainder_lower(x as int, 0x1_0000_0000);
        vstd::arithmetic::div_mod::lemma_remainder_upper(x as int, 0x1_0000_0000);
    }
    let hi = (x / 0x1_0000_0000) as i64;
    let lo = (x % 0x1_0000_0000) as i64;
    obj2("hi", JsonValue::Int(hi), "lo", JsonValue::Int(lo))
}

/// The rendered name of a metric, as a string slice.
fn metric_str(m: DistanceMetric) -> (r: &'static str)
    ensures
        r@ == metric_name(m),
{
    match m {
        DistanceMetric::Cosine => "cosine",
        DistanceMetric::Euclidean => "euclidean",
        DistanceMetric::DotProduct => "dot_product",
        DistanceMetric::Manhattan => "manhattan",
    }
}

/// The rendered name of an operation, as a string slice.
fn operation_str(o: VectorOperation) -> (r: &'static str)
    ensures
        r@ == operation_name(o),
{
    match o {
        VectorOperation::StoreVector => "store_vector",
        VectorOperation::GetVector => "get_vector",
        VectorOperation::SearchSimilar => "search_similar",
        VectorOperation::DeleteVector => "delete_vector",
        VectorOperation::CreateCollection => "create_collection",
        VectorOperation::DeleteCollection => "delete_collection",
        VectorOperation::ListCollections => "list_collections",
    }
}

/// The rendered name of an outcome class, as a string slice.
fn status_str(s: ResponseStatus) -> (r: &'static str)
    ensures
        r@ == status_name(s),
{
    match s {
        ResponseStatus::Success => "success",
        ResponseStatus::Error => "error",
        ResponseStatus::NotFound => "not_found",
    }
}

/// The rendered name of an index kind, as a string slice.
fn index_str(t: crate::migration::IndexType) -> (r: &'static str)
    ensures
        r@ == index_name(t),
{
    match t {
        crate::migration::IndexType::Text => "text",
        crate::migration::IndexType::Numeric => "numeric",
        crate::migration::IndexType::Keyword => "keyword",
        crate::migration::IndexType::Geo => "geo",
        crate::migration::IndexType::Boolean => "boolean",
    }
}

/// Encode a version.
pub fn version_to_json(v: &Version) -> (r: JsonValue)
    ensures
        r@ == version_json(*v),
{
    obj3(
        "major",
        u64_to_json(v.major),
        "minor",
        u64_to_json(v.minor),
        "patch",
        u64_to_json(v.patch),
    )
}

/// Encode a collection configuration.
pub fn config_to_json(c: CollectionConfig) -> (r: JsonValue)
    ensures
        r@ == config_json(c@),
{
    obj3(
        "name",
        JsonValue::Str(c.name),
        "dimension",
        u64_to_json(c.dimension as u64),
        "distance_metric",
        JsonValue::Str(make_string(metric_str(c.distance_metric))),
    )
}

/// Encode one collection change.
pub fn change_to_json(c: CollectionChange) -> (r: JsonValue)
    ensures
        r@ == change_json(c@),
{
    match c {
        CollectionChange::CreateCollection(cfg) => obj2(
            "kind",
            JsonValue::Str(make_string("create_collection")),
            "config",
            config_to_json(cfg),
        ),
        CollectionChange::DeleteCollection(n) => obj2(
            "kind",
            JsonValue::Str(make_string("delete_collection")),
            "name",
            JsonValue::Str(n),
        ),
        CollectionChange::UpdateCollection { name, dimension_change, distance_metric_change } => {
            let d = match dimension_change {
                None => JsonValue::Null,
                Some(x) => u64_to_json(x as u64),
            };
            let m = match distance_metric_change {
                None => JsonValue::Null,
                Some(x) => JsonValue::Str(make_string(metric_str(x))),
            };
            obj4(
                "kind",
                JsonValue::Str(make_string("update_collection")),
                "name",
                JsonValue::Str(name),
                "dimension_change",
                d,
                "distance_metric_change",
                m,
            )
        },
        CollectionChange::RenameCollection { old_name, new_name } => obj3(
            "kind",
            JsonValue::Str(make_string("rename_collection")),
            "old_name",
            JsonValue::Str(old_name),
            "new_name",
            JsonValue::Str(new_name),
        ),
        CollectionChange::AddIndex { collection, field, index_type } => obj4(
            "kind",
            JsonValue::Str(make_string("add_index")),
            "collection",
            JsonValue::Str(collection),
            "field",
            JsonValue::Str(field),
            "index_type",
            JsonValue::Str(make_string(index_str(index_type))),
        ),
        CollectionChange::RemoveIndex { collection, field } => obj3(
            "kind",
            JsonValue::Str(make_string("remove_index")),
            "collection",
            JsonValue::Str(collection),
            "field",
            JsonValue::Str(field),
        ),
    }
}

/// Encode a change list.
fn changes_to_json(cs: Vec<CollectionChange>) -> (r: Vec<JsonValue>)
    ensures
        arr_model(r@) == changes_json(changes_model(cs@)),
{
    let ghost orig = cs@;
    let mut cs = cs;
    let mut out: Vec<JsonValue> = Vec::new();
    let n0 = cs.len();
    proof {
        assert(orig.len() == n0);
        assert(orig.skip(0) =~= orig);
    }
    let mut i: usize = 0;
    while cs.len() > 0
        invariant
            i + cs@.len() == orig.len(),
            orig.len() <= usize::MAX,
            cs@ =~= orig.skip(i as int),
            out@.len() == i,
            forall|j: int| 0 <= j < i ==> json_model_of(#[trigger] out@[j]) == change_json(
                changes_model(orig)[j],
            ),
        decreases cs.len(),
    {
        proof {
            assert(cs@[0] == orig[i as int]);
        }
        let c = cs.remove(0);
        let v = change_to_json(c);
        out.push(v);
        proof {
            assert(cs@ =~= orig.skip(i as int + 1));
        }
        i += 1;
    }
    proof {
        lemma_arr_model(out@);
        assert(arr_model(out@) =~= changes_json(changes_model(orig)));
    }
    out
}

/// The model of a value (an alias usable in quantifiers).
pub open spec fn json_model_of(v: JsonValue) -> JsonModel {
    crate::json::json_model(v)
}

/// Encode a dependency list.
fn versions_to_json(vs: &Vec<Version>) -> (r: Vec<JsonValue>)
    ensures
        arr_model(r@) == versions_json(vs@),
{
    let mut out: Vec<JsonValue> = Vec::new();
    let mut i: usize = 0;
    while i < vs.len()
        invariant
            i <= vs.len(),
            out@.len() == i,
            forall|j: int| 0 <= j < i ==> json_model_of(#[trigger] out@[j]) == version_json(
                vs@[j],
            ),
        decreases vs.len() - i,
    {
        let v = version_to_json(&vs[i]);
        out.push(v);
        i += 1;
    }
    proof {
        lemma_arr_model(out@);
        assert(arr_model(out@) =~= versions_json(vs@));
    }
    out
}

/// Encode migration metadata.
pub fn metadata_to_json(m: MigrationMetadata) -> (r: JsonValue)
    ensures
        r@ == metadata_json(m@),
{
    let deps = versions_to_json(&m.dependencies);
    obj6(
        "author",
        JsonValue::Str(m.author),
        "created_at",
        JsonValue::Int(m.created_at),
        "description",
        JsonValue::Str(m.description),
        "dependencies",
        JsonValue::Array(deps),
        "reversible",
        JsonValue::Bool(m.reversible),
        "breaking_change",
        JsonValue::Bool(m.breaking_change),
    )
}

/// Encode a contract request.
pub fn request_to_json(r: VectorRequest) -> (out: JsonValue)
    ensures
        out@ == request_json(r@),
{
    obj3(
        "operation",
        JsonValue::Str(make_string(operation_str(r.operation))),
        "collection",
        JsonValue::Str(r.collection),
        "parameters",
        r.parameters,
    )
}

/// Encode a contract response.
pub fn response_to_json(r: VectorResponse) -> (out: JsonValue)
    ensures
        out@ == response_json(r@),
{
    let data = match r.data {
        None => JsonValue::Null,
        Some(v) => {
            let mut xs: Vec<JsonValue> = Vec::new();
            xs.push(v);
            proof {
                lemma_arr_model(xs@);
                assert(arr_model(xs@) =~= seq![json_model_of(xs@[0])]);
            }
            JsonValue::Array(xs)
        },
    };
    let err = match r.error {
        None => JsonValue::Null,
        Some(s) => {
            let mut xs: Vec<JsonValue> = Vec::new();
            xs.push(JsonValue::Str(s));
            proof {
                lemma_arr_model(xs@);
                assert(arr_model(xs@) =~= seq![json_model_of(xs@[0])]);
            }
            JsonValue::Array(xs)
        },
    };
    obj3(
        "status",
        JsonValue::Str(make_string(status_str(r.status))),
        "data",
        data,
        "error",
        err,
    )
}

/// Encode an interaction.
pub fn interaction_to_json(i: PactInteraction) -> (r: JsonValue)
    ensures
        r@ == interaction_json(i@),
{
    obj3(
        "description",
        JsonValue::Str(i.description),
        "request",
        request_to_json(i.request),
        "response",
        response_to_json(i.response),
    )
}

/// Encode an interaction list.
fn interactions_to_json(is: Vec<PactInteraction>) -> (r: Vec<JsonValue>)
    ensures
        arr_model(r@) == interactions_json(interactions_model(is@)),
{
    let ghost orig = is@;
    let mut is = is;
    let mut out: Vec<JsonValue> = Vec::new();
    let n0 = is.len();
    proof {
        assert(orig.len() == n0);
        assert(orig.skip(0) =~= orig);
    }
    let mut i: usize = 0;
    while is.len() > 0
        invariant
            i + is@.len() == orig.len(),
            orig.len() <= usize::MAX,
            is@ =~= orig.skip(i as int),
            out@.len() == i,
            forall|j: int| 0 <= j < i ==> json_model_of(#[trigger] out@[j]) == interaction_json(
                interactions_model(orig)[j],
            ),
        decreases is.len(),
    {
        proof {
            assert(is@[0] == orig[i as int]);
        }
        let x = is.remove(0);
        let v = interaction_to_json(x);
        out.push(v);
        proof {
            assert(is@ =~= orig.skip(i as int + 1));
        }
        i += 1;
    }
    proof {
        lemma_arr_model(out@);
        assert(arr_model(out@) =~= interactions_json(interactions_model(orig)));
    }
    out
}

/// Encode a contract.
pub fn contract_to_json(c: PactContract) -> (r: JsonValue)
    ensures
        r@ == contract_json(c@),
{
    let interactions = interactions_to_json(c.interactions);
    obj4(
        "consumer",
        JsonValue::Str(c.consumer),
        "provider",
        JsonValue::Str(c.provider),
        "contract_path",
        JsonValue::Str(c.contract_path),
        "interactions",
        JsonValue::Array(interactions),
    )
}

/// Encode a contract list.
fn contracts_to_json(cs: Vec<PactContract>) -> (r: Vec<JsonValue>)
    ensures
        arr_model(r@) == contracts_json(contracts_model(cs@)),
{
    let ghost orig = cs@;
    let mut cs = cs;
    let mut out: Vec<JsonValue> = Vec::new();
    let n0 = cs.len();
    proof {
        assert(orig.len() == n0);
        assert(orig.skip(0) =~= orig);
    }
    let mut i: usize = 0;
    while cs.len() > 0
        invariant
            i + cs@.len() == orig.len(),
            orig.len() <= usize::MAX,
            cs@ =~= orig.skip(i as int),
            out@.len() == i,
            forall|j: int| 0 <= j < i ==> json_model_of(#[trigger] out@[j]) == contract_json(
                contracts_model(orig)[j],
            ),
        decreases cs.len(),
    {
        proof {
            assert(cs@[0] == orig[i as int]);
        }
        let c = cs.remove(0);
        let v = contract_to_json(c);
        out.push(v);
        proof {
            assert(cs@ =~= orig.skip(i as int + 1));
        }
        i += 1;
    }
    proof {
        lemma_arr_model(out@);
        assert(arr_model(out@) =~= contracts_json(contracts_model(orig)));
    }
    out
}

/// Serialize a whole migration into the persisted layout.
pub fn migration_to_json(m: SchemaMigration) -> (r: JsonValue)
    ensures
        r@ == migration_json(m@),
{
    let SchemaMigration { version, name, collection_changes, metadata, pact_contracts } = m;
    let changes = changes_to_json(collection_changes);
    let contracts = contracts_to_json(pact_contracts);
    obj5(
        "version",
        version_to_json(&version),
        "name",
        JsonValue::Str(name),
        "collection_changes",
        JsonValue::Array(changes),
        "metadata",
        metadata_to_json(metadata),
        "pact_contracts",
        JsonValue::Array(contracts),
    )
}

/// What a decoded change list looks like, element-wise.
pub proof fn lemma_dec_changes_char(s: Seq<JsonModel>)
    ensures
        dec_changes(s) matches Some(t) ==> (t.len() == s.len() && forall|j: int|
            0 <= j < s.len() ==> dec_change(#[trigger] s[j]) == Some(t[j])),
        (forall|j: int| 0 <= j < s.len() ==> dec_change(#[trigger] s[j]) is Some) ==> dec_changes(
            s,
        ) is Some,
    decreases s.len(),
{
    if s.len() > 0 {
        lemma_dec_changes_char(s.drop_first());
        if dec_changes(s) is Some {
            let t = dec_changes(s)->Some_0;
            let rest = dec_changes(s.drop_first())->Some_0;
            assert forall|j: int| 0 <= j < s.len() implies dec_change(#[trigger] s[j]) == Some(
                t[j],
            ) by {
                if j > 0 {
                    assert(s.drop_first()[j - 1] == s[j]);
                    assert(t[j] == rest[j - 1]);
                }
            }
        }
        if forall|j: int| 0 <= j < s.len() ==> dec_change(#[trigger] s[j]) is Some {
            assert forall|j: int| 0 <= j < s.drop_first().len() implies dec_change(
                #[trigger] s.drop_first()[j],
            ) is Some by {
                assert(s.drop_first()[j] == s[j + 1]);
            }
            assert(dec_change(s[0]) is Some);
        }
    }
}

/// What a decoded dependency list looks like, element-wise.
pub proof fn lemma_dec_versions_char(s: Seq<JsonModel>)
    ensures
        dec_versions(s) matches Some(t) ==> (t.len() == s.len() && forall|j: int|
            0 <= j < s.len() ==> dec_version(#[trigger] s[j]) == Some(t[j])),
        (forall|j: int| 0 <= j < s.len() ==> dec_version(#[trigger] s[j]) is Some)
            ==> dec_versions(s) is Some,
    decreases s.len(),
{
    if s.len() > 0 {
        lemma_dec_versions_char(s.drop_first());
        if dec_versions(s) is Some {
            let t = dec_versions(s)->Some_0;
            let rest = dec_versions(s.drop_first())->Some_0;
            assert forall|j: int| 0 <= j < s.len() implies dec_version(#[trigger] s[j]) == Some(
                t[j],
            ) by {
                if j > 0 {
                    assert(s.drop_first()[j - 1] == s[j]);
                    assert(t[j] == rest[j - 1]);
                }
            }
        }
        if forall|j: int| 0 <= j < s.len() ==> dec_version(#[trigger] s[j]) is Some {
            assert forall|j: int| 0 <= j < s.drop_first().len() implies dec_version(
                #[trigger] s.drop_first()[j],
            ) is Some by {
                assert(s.drop_first()[j] == s[j + 1]);
            }
            assert(dec_version(s[0]) is Some);
        }
    }
}

/// What a decoded interaction list looks like, element-wise.
pub proof fn lemma_dec_interactions_char(s: Seq<JsonModel>)
    ensures
        dec_interactions(s) matches Some(t) ==> (t.len() == s.len() && forall|j: int|
            0 <= j < s.len() ==> dec_interaction(#[trigger] s[j]) == Some(t[j])),
        (forall|j: int| 0 <= j < s.len() ==> dec_interaction(#[trigger] s[j]) is Some)
            ==> dec_interactions(s) is Some,
    decreases s.len(),
{
    if s.len() > 0 {
        lemma_dec_interactions_char(s.drop_first());
        if dec_interactions(s) is Some {
            let t = dec_interactions(s)->Some_0;
            let rest = dec_interactions(s.drop_first())->Some_0;
            assert forall|j: int| 0 <= j < s.len() implies dec_interaction(#[trigger] s[j]) == Some(
                t[j],
            ) by {
                if j > 0 {
                    assert(s.drop_first()[j - 1] == s[j]);
                    assert(t[j] == rest[j - 1]);
                }
            }
        }
        if forall|j: int| 0 <= j < s.len() ==> dec_interaction(#[trigger] s[j]) is Some {
            assert forall|j: int| 0 <= j < s.drop_first().len() implies dec_interaction(
                #[trigger] s.drop_first()[j],
            ) is Some by {
                assert(s.drop_first()[j] == s[j + 1]);
            }
            assert(dec_interaction(s[0]) is Some);
        }
    }
}

/// What a decoded contract list looks like, element-wise.
pub proof fn lemma_dec_contracts_char(s: Seq<JsonModel>)
    ensures
        dec_contracts(s) matches Some(t) ==> (t.len() == s.len() && forall|j: int|
            0 <= j < s.len() ==> dec_contract(#[trigger] s[j]) == Some(t[j])),
        (forall|j: int| 0 <= j < s.len() ==> dec_contract(#[trigger] s[j]) is Some)
            ==> dec_contracts(s) is Some,
    decreases s.len(),
{
    if s.len() > 0 {
        lemma_dec_contracts_char(s.drop_first());
        if dec_contracts(s) is Some {
            let t = dec_contracts(s)->Some_0;
            let rest = dec_contracts(s.drop_first())->Some_0;
            assert forall|j: int| 0 <= j < s.len() implies dec_contract(#[trigger] s[j]) == Some(
                t[j],
            ) by {
                if j > 0 {
                    assert(s.drop_first()[j - 1] == s[j]);
                    assert(t[j] == rest[j - 1]);
                }
            }
        }
        if forall|j: int| 0 <= j < s.len() ==> dec_contract(#[trigger] s[j]) is Some {
            assert forall|j: int| 0 <= j < s.drop_first().len() implies dec_contract(
                #[trigger] s.drop_first()[j],
            ) is Some by {
                assert(s.drop_first()[j] == s[j + 1]);
            }
            assert(dec_contract(s[0]) is Some);
        }
    }
}

/// Read a two-limb number back.
pub fn u64_from_json(v: &JsonValue) -> (r: Option<u64>)
    ensures
        r == dec_u64_limbs(v@),
{
    match v {
        JsonValue::Object(fs) => {
            proof {
                lemma_fields_model(fs@);
            }
            if fs.len() != 2 {
                return None;
            }
            if !(str_eq(fs[0].0.as_str(), "hi") && str_eq(fs[1].0.as_str(), "lo")) {
                return None;
            }
            let hi: i64 = match &fs[0].1 {
                JsonValue::Int(x) => *x,
                _ => {
                    return None;
                },
            };
            let lo: i64 = match &fs[1].1 {
                JsonValue::Int(x) => *x,
                _ => {
                    return None;
                },
            };
            if 0 <= hi && hi < 0x1_0000_0000 && 0 <= lo && lo < 0x1_0000_0000 {
                proof {
                    assert((hi as u64) * 0x1_0000_0000 <= 0xFFFF_FFFF * 0x1_0000_0000)
                        by (nonlinear_arith)
                        requires
                            0 <= hi < 0x1_0000_0000,
                    ;
                }
                Some((hi as u64) * 0x1_0000_0000 + (lo as u64))
            } else {
                None
            }
        },
        _ => None,
    }
}

/// Read a metric name back.
pub fn metric_from_str(s: &str) -> (r: Option<DistanceMetric>)
    ensures
        r == dec_metric(s@),
{
    if str_eq(s, "cosine") {
        Some(DistanceMetric::Cosine)
    } else if str_eq(s, "euclidean") {
        Some(DistanceMetric::Euclidean)
    } else if str_eq(s, "dot_product") {
        Some(DistanceMetric::DotProduct)
    } else if str_eq(s, "manhattan") {
        Some(DistanceMetric::Manhattan)
    } else {
        None
    }
}

/// Read an index-kind name back.
pub fn index_from_str(s: &str) -> (r: Option<crate::migration::IndexType>)
    ensures
        r == dec_index(s@),
{
    if str_eq(s, "text") {
        Some(crate::migration::IndexType::Text)
    } else if str_eq(s, "numeric") {
        Some(crate::migration::IndexType::Numeric)
    } else if str_eq(s, "keyword") {
        Some(crate::migration::IndexType::Keyword)
    } else if str_eq(s, "geo") {
        Some(crate::migration::IndexType::Geo)
    } else if str_eq(s, "boolean") {
        Some(crate::migration::IndexType::Boolean)
    } else {
        None
    }
}

/// Read an operation name back.
pub fn operation_from_str(s: &str) -> (r: Option<VectorOperation>)
    ensures
        r == dec_operation(s@),
{
    if str_eq(s, "store_vector") {
        Some(VectorOperation::StoreVector)
    } else if str_eq(s, "get_vector") {
        Some(VectorOperation::GetVector)
    } else if str_eq(s, "search_similar") {
        Some(VectorOperation::SearchSimilar)
    } else if str_eq(s, "delete_vector") {
        Some(VectorOperation::DeleteVector)
    } else if str_eq(s, "create_collection") {
        Some(VectorOperation::CreateCollection)
    } else if str_eq(s, "delete_collection") {
        Some(VectorOperation::DeleteCollection)
    } else if str_eq(s, "list_collections") {
        Some(VectorOperation::ListCollections)
    } else {
        None
    }
}

/// Read an outcome-class name back.
pub fn status_from_str(s: &str) -> (r: Option<ResponseStatus>)
    ensures
        r == dec_status(s@),
{
    if str_eq(s, "success") {
        Some(ResponseStatus::Success)
    } else if str_eq(s, "error") {
        Some(ResponseStatus::Error)
    } else if str_eq(s, "not_found") {
        Some(ResponseStatus::NotFound)
    } else {
        None
    }
}

/// Read a version object back.
pub fn version_from_json(v: &JsonValue) -> (r: Option<Version>)
    ensures
        r == dec_version(v@),
{
    match v {
        JsonValue::Object(fs) => {
            proof {
                lemma_fields_model(fs@);
            }
            if fs.len() != 3 {
                return None;
            }
            if !(str_eq(fs[0].0.as_str(), "major") && str_eq(fs[1].0.as_str(), "minor") && str_eq(
                fs[2].0.as_str(),
                "patch",
            )) {
                return None;
            }
            let major = u64_from_json(&fs[0].1);
            let minor = u64_from_json(&fs[1].1);
            let patch = u64_from_json(&fs[2].1);
            match (major, minor, patch) {
                (Some(major), Some(minor), Some(patch)) => Some(
                    Version { major, minor, patch },
                ),
                _ => None,
            }
        },
        _ => None,
    }
}

/// Read a collection configuration back.
pub fn config_from_json(v: &JsonValue) -> (r: Option<CollectionConfig>)
    ensures
        r matches Some(c) ==> dec_config(v@) == Some(c@),
        r is None ==> dec_config(v@) is None,
{
    match v {
        JsonValue::Object(fs) => {
            proof {
                lemma_fields_model(fs@);
            }
            if fs.len() != 3 {
                return None;
            }
            if !(str_eq(fs[0].0.as_str(), "name") && str_eq(fs[1].0.as_str(), "dimension")
                && str_eq(fs[2].0.as_str(), "distance_metric")) {
                return None;
            }
            let name: String = match &fs[0].1 {
                JsonValue::Str(s) => s.clone(),
                _ => {
                    return None;
                },
            };
            let metric: Option<DistanceMetric> = match &fs[2].1 {
                JsonValue::Str(s) => metric_from_str(s.as_str()),
                _ => {
                    return None;
                },
            };
            match (u64_from_json(&fs[1].1), metric) {
                (Some(d), Some(m)) => {
                    if d <= usize::MAX as u64 {
                        Some(
                            CollectionConfig {
                                name,
                                dimension: d as usize,
                                distance_metric: m,
                            },
                        )
                    } else {
                        None
                    }
                },
                _ => None,
            }
        },
        _ => None,
    }
}

/// Read an optional dimension back.
fn opt_usize_from_json(v: &JsonValue) -> (r: Option<Option<usize>>)
    ensures
        r == dec_opt_usize(v@),
{
    match v {
        JsonValue::Null => Some(None),
        _ => {
            match u64_from_json(v) {
                Some(d) => {
                    if d <= usize::MAX as u64 {
                        Some(Some(d as usize))
                    } else {
                        None
                    }
                },
                None => None,
            }
        },
    }
}

/// Read an optional metric back.
fn opt_metric_from_json(v: &JsonValue) -> (r: Option<Option<DistanceMetric>>)
    ensures
        r == dec_opt_metric(v@),
{
    match v {
        JsonValue::Null => Some(None),
        JsonValue::Str(s) => match metric_from_str(s.as_str()) {
            Some(m) => Some(Some(m)),
            None => None,
        },
        _ => None,
    }
}

/// Read one collection change back.
pub fn change_from_json(v: &JsonValue) -> (r: Option<CollectionChange>)
    ensures
        r matches Some(c) ==> dec_change(v@) == Some(c@),
        r is None ==> dec_change(v@) is None,
{
    match v {
        JsonValue::Object(fs) => {
            proof {
                lemma_fields_model(fs@);
            }
            if fs.len() < 1 {
                return None;
            }
            if !str_eq(fs[0].0.as_str(), "kind") {
                return None;
            }
            let kind: &String = match &fs[0].1 {
                JsonValue::Str(s) => s,
                _ => {
                    return None;
                },
            };
            if str_eq(kind.as_str(), "create_collection") {
                if fs.len() == 2 && str_eq(fs[1].0.as_str(), "config") {
                    match config_from_json(&fs[1].1) {
                        Some(cfg) => Some(CollectionChange::CreateCollection(cfg)),
                        None => None,
                    }
                } else {
                    None
                }
            } else if str_eq(kind.as_str(), "delete_collection") {
                if fs.len() == 2 && str_eq(fs[1].0.as_str(), "name") {
                    match &fs[1].1 {
                        JsonValue::Str(n) => Some(CollectionChange::DeleteCollection(n.clone())),
                        _ => None,
                    }
                } else {
                    None
                }
            } else if str_eq(kind.as_str(), "update_collection") {
                if fs.len() == 4 && str_eq(fs[1].0.as_str(), "name") && str_eq(
                    fs[2].0.as_str(),
                    "dimension_change",
                ) && str_eq(fs[3].0.as_str(), "distance_metric_change") {
                    let name: String = match &fs[1].1 {
                        JsonValue::Str(s) => s.clone(),
                        _ => {
                            return None;
                        },
                    };
                    match (opt_usize_from_json(&fs[2].1), opt_metric_from_json(&fs[3].1)) {
                        (Some(d), Some(m)) => Some(
                            CollectionChange::UpdateCollection {
                                name,
                                dimension_change: d,
                                distance_metric_change: m,
                            },
                        ),
                        _ => None,
                    }
                } else {
                    None
                }
            } else if str_eq(kind.as_str(), "rename_collection") {
                if fs.len() == 3 && str_eq(fs[1].0.as_str(), "old_name") && str_eq(
                    fs[2].0.as_str(),
                    "new_name",
                ) {
                    match (&fs[1].1, &fs[2].1) {
                        (JsonValue::Str(o), JsonValue::Str(n)) => Some(
                            CollectionChange::RenameCollection {
                                old_name: o.clone(),
                                new_name: n.clone(),
                            },
                        ),
                        _ => None,
                    }
                } else {
                    None
                }
            } else if str_eq(kind.as_str(), "add_index") {
                if fs.len() == 4 && str_eq(fs[1].0.as_str(), "collection") && str_eq(
                    fs[2].0.as_str(),
                    "field",
                ) && str_eq(fs[3].0.as_str(), "index_type") {
                    let collection: String = match &fs[1].1 {
                        JsonValue::Str(s) => s.clone(),
                        _ => {
                            return None;
                        },
                    };
                    let field: String = match &fs[2].1 {
                        JsonValue::Str(s) => s.clone(),
                        _ => {
                            return None;
                        },
                    };
                    let t: Option<crate::migration::IndexType> = match &fs[3].1 {
                        JsonValue::Str(s) => index_from_str(s.as_str()),
                        _ => {
                            return None;
                        },
                    };
                    match t {
                        Some(t) => Some(
                            CollectionChange::AddIndex { collection, field, index_type: t },
                        ),
                        None => None,
                    }
                } else {
                    None
                }
            } else if str_eq(kind.as_str(), "remove_index") {
                if fs.len() == 3 && str_eq(fs[1].0.as_str(), "collection") && str_eq(
                    fs[2].0.as_str(),
                    "field",
                ) {
                    match (&fs[1].1, &fs[2].1) {
                        (JsonValue::Str(c), JsonValue::Str(f)) => Some(
                            CollectionChange::RemoveIndex {
                                collection: c.clone(),
                                field: f.clone(),
                            },
                        ),
                        _ => None,
                    }
                } else {
                    None
                }
            } else {
                None
            }
        },
        _ => None,
    }
}

/// Read a change list back.
fn changes_from_json(vs: &Vec<JsonValue>) -> (r: Option<Vec<CollectionChange>>)
    ensures
        r matches Some(out) ==> dec_changes(arr_model(vs@)) == Some(changes_model(out@)),
        r is None ==> dec_changes(arr_model(vs@)) is None,
{
    let ghost ms = arr_model(vs@);
    proof {
        lemma_arr_model(vs@);
        lemma_dec_changes_char(ms);
    }
    let mut out: Vec<CollectionChange> = Vec::new();
    let mut i: usize = 0;
    while i < vs.len()
        invariant
            i <= vs.len(),
            ms == arr_model(vs@),
            ms.len() == vs@.len(),
            forall|j: int| 0 <= j < vs@.len() ==> ms[j] == json_model_of(#[trigger] vs@[j]),
            out@.len() == i,
            forall|j: int| 0 <= j < i ==> dec_change(ms[j]) == Some((#[trigger] out@[j])@),
        decreases vs.len() - i,
    {
        match change_from_json(&vs[i]) {
            Some(c) => {
                out.push(c);
            },
            None => {
                proof {
                    lemma_dec_changes_char(ms);
                }
                return None;
            },
        }
        i += 1;
    }
    proof {
        lemma_dec_changes_char(ms);
        assert forall|j: int| 0 <= j < ms.len() implies dec_change(#[trigger] ms[j]) is Some by {
            assert(dec_change(ms[j]) == Some(out@[j]@));
        }
        assert(dec_changes(ms) is Some);
        assert(changes_model(out@) =~= dec_changes(ms)->Some_0);
    }
    Some(out)
}

/// Read a dependency list back.
fn versions_from_json(vs: &Vec<JsonValue>) -> (r: Option<Vec<Version>>)
    ensures
        r matches Some(out) ==> dec_versions(arr_model(vs@)) == Some(out@),
        r is None ==> dec_versions(arr_model(vs@)) is None,
{
    let ghost ms = arr_model(vs@);
    proof {
        lemma_arr_model(vs@);
        lemma_dec_versions_char(ms);
    }
    let mut out: Vec<Version> = Vec::new();
    let mut i: usize = 0;
    while i < vs.len()
        invariant
            i <= vs.len(),
            ms == arr_model(vs@),
            ms.len() == vs@.len(),
            forall|j: int| 0 <= j < vs@.len() ==> ms[j] == json_model_of(#[trigger] vs@[j]),
            out@.len() == i,
            forall|j: int| 0 <= j < i ==> dec_version(ms[j]) == Some(#[trigger] out@[j]),
        decreases vs.len() - i,
    {
        match version_from_json(&vs[i]) {
            Some(c) => {
                out.push(c);
            },
            None => {
                proof {
                    lemma_dec_versions_char(ms);
                }
                return None;
            },
        }
        i += 1;
    }
    proof {
        lemma_dec_versions_char(ms);
        assert forall|j: int| 0 <= j < ms.len() implies dec_version(#[trigger] ms[j]) is Some by {
            assert(dec_version(ms[j]) == Some(out@[j]));
        }
        assert(dec_versions(ms) is Some);
        assert(out@ =~= dec_versions(ms)->Some_0);
    }
    Some(out)
}

/// Read migration metadata back.
pub fn metadata_from_json(v: &JsonValue) -> (r: Option<MigrationMetadata>)
    ensures
        r matches Some(m) ==> dec_metadata(v@) == Some(m@),
        r is None ==> dec_metadata(v@) is None,
{
    match v {
        JsonValue::Object(fs) => {
            proof {
                lemma_fields_model(fs@);
            }
            if fs.len() != 6 {
                return None;
            }
            if !(str_eq(fs[0].0.as_str(), "author") && str_eq(fs[1].0.as_str(), "created_at")
                && str_eq(fs[2].0.as_str(), "description") && str_eq(
                fs[3].0.as_str(),
                "dependencies",
            ) && str_eq(fs[4].0.as_str(), "reversible") && str_eq(
                fs[5].0.as_str(),
                "breaking_change",
            )) {
                return None;
            }
            let author: String = match &fs[0].1 {
                JsonValue::Str(s) => s.clone(),
                _ => {
                    return None;
                },
            };
            let created_at: i64 = match &fs[1].1 {
                JsonValue::Int(x) => *x,
                _ => {
                    return None;
                },
            };
            let description: String = match &fs[2].1 {
                JsonValue::Str(s) => s.clone(),
                _ => {
                    return None;
                },
            };
            let deps: Option<Vec<Version>> = match &fs[3].1 {
                JsonValue::Array(vs) => versions_from_json(vs),
                _ => {
                    return None;
                },
            };
            let reversible: bool = match &fs[4].1 {
                JsonValue::Bool(b) => *b,
                _ => {
                    return None;
                },
            };
            let breaking_change: bool = match &fs[5].1 {
                JsonValue::Bool(b) => *b,
                _ => {
                    return None;
                },
            };
            match deps {
                Some(dependencies) => Some(
                    MigrationMetadata {
                        author,
                        created_at,
                        description,
                        dependencies,
                        reversible,
                        breaking_change,
                    },
                ),
                None => None,
            }
        },
        _ => None,
    }
}

/// Read a contract request back.
pub fn request_from_json(v: &JsonValue) -> (r: Option<VectorRequest>)
    ensures
        r matches Some(x) ==> dec_request(v@) == Some(x@),
        r is None ==> dec_request(v@) is None,
{
    match v {
        JsonValue::Object(fs) => {
            proof {
                lemma_fields_model(fs@);
            }
            if fs.len() != 3 {
                return None;
            }
            if !(str_eq(fs[0].0.as_str(), "operation") && str_eq(fs[1].0.as_str(), "collection")
                && str_eq(fs[2].0.as_str(), "parameters")) {
                return None;
            }
            let op: Option<VectorOperation> = match &fs[0].1 {
                JsonValue::Str(s) => operation_from_str(s.as_str()),
                _ => {
                    return None;
                },
            };
            let collection: String = match &fs[1].1 {
                JsonValue::Str(s) => s.clone(),
                _ => {
                    return None;
                },
            };
            match op {
                Some(operation) => Some(
                    VectorRequest {
                        operation,
                        collection,
                        parameters: crate::json::json_value_clone(&fs[2].1),
                    },
                ),
                None => None,
            }
        },
        _ => None,
    }
}

/// Read a contract response back.
pub fn response_from_json(v: &JsonValue) -> (r: Option<VectorResponse>)
    ensures
        r matches Some(x) ==> dec_response(v@) == Some(x@),
        r is None ==> dec_response(v@) is None,
{
    match v {
        JsonValue::Object(fs) => {
            proof {
                lemma_fields_model(fs@);
            }
            if fs.len() != 3 {
                return None;
            }
            if !(str_eq(fs[0].0.as_str(), "status") && str_eq(fs[1].0.as_str(), "data") && str_eq(
                fs[2].0.as_str(),
                "error",
            )) {
                return None;
            }
            let st: Option<ResponseStatus> = match &fs[0].1 {
                JsonValue::Str(s) => status_from_str(s.as_str()),
                _ => {
                    return None;
                },
            };
            let data: Option<JsonValue> = match &fs[1].1 {
                JsonValue::Null => None,
                JsonValue::Array(xs) => {
                    proof {
                        lemma_arr_model(xs@);
                    }
                    if xs.len() == 1 {
                        Some(crate::json::json_value_clone(&xs[0]))
                    } else {
                        return None;
                    }
                },
                _ => {
                    return None;
                },
            };
            let error: Option<String> = match &fs[2].1 {
                JsonValue::Null => None,
                JsonValue::Array(xs) => {
                    proof {
                        lemma_arr_model(xs@);
                    }
                    if xs.len() == 1 {
                        match &xs[0] {
                            JsonValue::Str(s) => Some(s.clone()),
                            _ => {
                                return None;
                            },
                        }
                    } else {
                        return None;
                    }
                },
                _ => {
                    return None;
                },
            };
            match st {
                Some(status) => Some(VectorResponse { status, data, error }),
                None => None,
            }
        },
        _ => None,
    }
}

/// Read an interaction back.
pub fn interaction_from_json(v: &JsonValue) -> (r: Option<PactInteraction>)
    ensures
        r matches Some(x) ==> dec_interaction(v@) == Some(x@),
        r is None ==> dec_interaction(v@) is None,
{
    match v {
        JsonValue::Object(fs) => {
            proof {
                lemma_fields_model(fs@);
            }
            if fs.len() != 3 {
                return None;
            }
            if !(str_eq(fs[0].0.as_str(), "description") && str_eq(fs[1].0.as_str(), "request")
                && str_eq(fs[2].0.as_str(), "response")) {
                return None;
            }
            let description: String = match &fs[0].1 {
                JsonValue::Str(s) => s.clone(),
                _ => {
                    return None;
                },
            };
            match (request_from_json(&fs[1].1), response_from_json(&fs[2].1)) {
                (Some(request), Some(response)) => Some(
                    PactInteraction { description, request, response },
                ),
                _ => None,
            }
        },
        _ => None,
    }
}

/// Read an interaction list back.
fn interactions_from_json(vs: &Vec<JsonValue>) -> (r: Option<Vec<PactInteraction>>)
    ensures
        r matches Some(out) ==> dec_interactions(arr_model(vs@)) == Some(
            interactions_model(out@),
        ),
        r is None ==> dec_interactions(arr_model(vs@)) is None,
{
    let ghost ms = arr_model(vs@);
    proof {
        lemma_arr_model(vs@);
        lemma_dec_interactions_char(ms);
    }
    let mut out: Vec<PactInteraction> = Vec::new();
    let mut i: usize = 0;
    while i < vs.len()
        invariant
            i <= vs.len(),
            ms == arr_model(vs@),
            ms.len() == vs@.len(),
            forall|j: int| 0 <= j < vs@.len() ==> ms[j] == json_model_of(#[trigger] vs@[j]),
            out@.len() == i,
            forall|j: int| 0 <= j < i ==> dec_interaction(ms[j]) == Some((#[trigger] out@[j])@),
        decreases vs.len() - i,
    {
        match interaction_from_json(&vs[i]) {
            Some(c) => {
                out.push(c);
            },
            None => {
                proof {
                    lemma_dec_interactions_char(ms);
                }
                return None;
            },
        }
        i += 1;
    }
    proof {
        lemma_dec_interactions_char(ms);
        assert forall|j: int| 0 <= j < ms.len() implies dec_interaction(
            #[trigger] ms[j],
        ) is Some by {
            assert(dec_interaction(ms[j]) == Some(out@[j]@));
        }
        assert(dec_interactions(ms) is Some);
        assert(interactions_model(out@) =~= dec_interactions(ms)->Some_0);
    }
    Some(out)
}

/// Read a contract back.
pub fn contract_from_json(v: &JsonValue) -> (r: Option<PactContract>)
    ensures
        r matches Some(x) ==> dec_contract(v@) == Some(x@),
        r is None ==> dec_contract(v@) is None,
{
    match v {
        JsonValue::Object(fs) => {
            proof {
                lemma_fields_model(fs@);
            }
            if fs.len() != 4 {
                return None;
            }
            if !(str_eq(fs[0].0.as_str(), "consumer") && str_eq(fs[1].0.as_str(), "provider")
                && str_eq(fs[2].0.as_str(), "contract_path") && str_eq(
                fs[3].0.as_str(),
                "interactions",
            )) {
                return None;
            }
            let consumer: String = match &fs[0].1 {
                JsonValue::Str(s) => s.clone(),
                _ => {
                    return None;
                },
            };
            let provider: String = match &fs[1].1 {
                JsonValue::Str(s) => s.clone(),
                _ => {
                    return None;
                },
            };
            let contract_path: String = match &fs[2].1 {
                JsonValue::Str(s) => s.clone(),
                _ => {
                    return None;
                },
            };
            let is: Option<Vec<PactInteraction>> = match &fs[3].1 {
                JsonValue::Array(vs) => interactions_from_json(vs),
                _ => {
                    return None;
                },
            };
            match is {
                Some(interactions) => Some(
                    PactContract { consumer, provider, contract_path, interactions },
                ),
                None => None,
            }
        },
        _ => None,
    }
}

/// Read a contract list back.
fn contracts_from_json(vs: &Vec<JsonValue>) -> (r: Option<Vec<PactContract>>)
    ensures
        r matches Some(out) ==> dec_contracts(arr_model(vs@)) == Some(contracts_model(out@)),
        r is None ==> dec_contracts(arr_model(vs@)) is None,
{
    let ghost ms = arr_model(vs@);
    proof {
        lemma_arr_model(vs@);
        lemma_dec_contracts_char(ms);
    }
    let mut out: Vec<PactContract> = Vec::new();
    let mut i: usize = 0;
    while i < vs.len()
        invariant
            i <= vs.len(),
            ms == arr_model(vs@),
            ms.len() == vs@.len(),
            forall|j: int| 0 <= j < vs@.len() ==> ms[j] == json_model_of(#[trigger] vs@[j]),
            out@.len() == i,
            forall|j: int| 0 <= j < i ==> dec_contract(ms[j]) == Some((#[trigger] out@[j])@),
        decreases vs.len() - i,
    {
        match contract_from_json(&vs[i]) {
            Some(c) => {
                out.push(c);
            },
            None => {
                proof {
                    lemma_dec_contracts_char(ms);
                }
                return None;
            },
        }
        i += 1;
    }
    proof {
        lemma_dec_contracts_char(ms);
        assert forall|j: int| 0 <= j < ms.len() implies dec_contract(#[trigger] ms[j]) is Some by {
            assert(dec_contract(ms[j]) == Some(out@[j]@));
        }
        assert(dec_contracts(ms) is Some);
        assert(contracts_model(out@) =~= dec_contracts(ms)->Some_0);
    }
    Some(out)
}

/// Read a whole migration back; accepts exactly the persisted layout.
pub fn migration_from_json(v: &JsonValue) -> (r: Option<SchemaMigration>)
    ensures
        r matches Some(m) ==> dec_migration(v@) == Some(m@),
        r is None ==> dec_migration(v@) is None,
{
    match v {
        JsonValue::Object(fs) => {
            proof {
                lemma_fields_model(fs@);
            }
            if fs.len() != 5 {
                return None;
            }
            if !(str_eq(fs[0].0.as_str(), "version") && str_eq(fs[1].0.as_str(), "name")
                && str_eq(fs[2].0.as_str(), "collection_changes") && str_eq(
                fs[3].0.as_str(),
                "metadata",
            ) && str_eq(fs[4].0.as_str(), "pact_contracts")) {
                return None;
            }
            let version: Option<Version> = version_from_json(&fs[0].1);
            let name: String = match &fs[1].1 {
                JsonValue::Str(s) => s.clone(),
                _ => {
                    return None;
                },
            };
            let changes: Option<Vec<CollectionChange>> = match &fs[2].1 {
                JsonValue::Array(vs) => changes_from_json(vs),
                _ => {
                    return None;
                },
            };
            let metadata: Option<MigrationMetadata> = metadata_from_json(&fs[3].1);
            let contracts: Option<Vec<PactContract>> = match &fs[4].1 {
                JsonValue::Array(vs) => contracts_from_json(vs),
                _ => {
                    return None;
                },
            };
            match (version, changes, metadata, contracts) {
                (Some(version), Some(collection_changes), Some(metadata), Some(pact_contracts))
                    => Some(
                    SchemaMigration {
                        version,
                        name,
                        collection_changes,
                        metadata,
                        pact_contracts,
                    },
                ),
                _ => None,
            }
        },
        _ => None,
    }
}

} // verus!
