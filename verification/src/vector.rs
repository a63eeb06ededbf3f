//! The vector data model: records, collection configurations and search
//! parameters.
//!
//! An embedding component is carried as its raw 32-bit IEEE bit pattern:
//! the library never computes with embedding values, it only stores and
//! moves them, so the opaque representation loses nothing. The unverified
//! boundary converts to and from floating point.

use vstd::prelude::*;

use crate::errors::VectorError;
use crate::json::fields_clone;
use crate::json::fields_model;
use crate::json::JsonModel;
use crate::json::JsonValue;
use crate::qdrant_errors::make_string;

verus! {

/// The distance metric a collection compares embeddings with.
#[derive(Clone, Copy, Debug, PartialEq, Eq, Structural)]
pub enum DistanceMetric {
    Cosine,
    Euclidean,
    DotProduct,
    Manhattan,
}

/// A vector record: an id, an embedding (as raw bit patterns) and a
/// JSON-like metadata map.
#[derive(Debug)]
pub struct Vector {
    pub id: String,
    pub embedding: Vec<u32>,
    pub metadata: Vec<(String, JsonValue)>,
}

/// The model of a `Vector`.
pub struct VectorRecordModel {
    pub id: Seq<char>,
    pub embedding: Seq<u32>,
    pub metadata: Seq<(Seq<char>, JsonModel)>,
}

impl View for Vector {
    type V = VectorRecordModel;

    open spec fn view(&self) -> VectorRecordModel {
        VectorRecordModel {
            id: self.id@,
            embedding: self.embedding@,
            metadata: fields_model(self.metadata@),
        }
    }
}

impl Vector {
    /// A record with an empty metadata map.
    pub fn new(id: String, embedding: Vec<u32>) -> (r: Vector)
        ensures
            r@ == (VectorRecordModel { id: id@, embedding: embedding@, metadata: Seq::empty() }),
    {
        let r = Vector { id, embedding, metadata: Vec::new() };
        proof {
            assert(fields_model(r.metadata@) =~= Seq::<(Seq<char>, JsonModel)>::empty());
        }
        r
    }

    /// A record with the given metadata map.
    pub fn with_metadata(id: String, embedding: Vec<u32>, metadata: Vec<(String, JsonValue)>) -> (
        r: Vector)
        ensures
            r@ == (VectorRecordModel {
                id: id@,
                embedding: embedding@,
                metadata: fields_model(metadata@),
            }),
    {
        Vector { id, embedding, metadata }
    }

    /// Append one metadata binding.
    pub fn add_metadata(&mut self, key: String, value: JsonValue)
        ensures
            final(self)@ == (VectorRecordModel {
                id: old(self)@.id,
                embedding: old(self)@.embedding,
                metadata: old(self)@.metadata.push((key@, value@)),
            }),
    {
        let ghost before = self.metadata@;
        self.metadata.push((key, value));
        proof {
            crate::json::lemma_fields_model(self.metadata@);
            crate::json::lemma_fields_model(before);
            assert(fields_model(self.metadata@) =~= fields_model(before).push(
                (self.metadata@.last().0@, crate::json::json_model(self.metadata@.last().1)),
            ));
        }
    }

    /// A copy of the record with the same model.
    pub fn clone_vector(&self) -> (r: Vector)
        ensures
            r@ == self@,
    {
        let mut embedding: Vec<u32> = Vec::new();
        let mut i: usize = 0;
        while i < self.embedding.len()
            invariant
                i <= self.embedding.len(),
                embedding@ == self.embedding@.take(i as int),
            decreases self.embedding.len() - i,
        {
            embedding.push(self.embedding[i]);
            proof {
                assert(embedding@ =~= self.embedding@.take(i + 1));
            }
            i += 1;
        }
        proof {
            assert(self.embedding@.take(self.embedding@.len() as int) =~= self.embedding@);
        }
        Vector { id: self.id.clone(), embedding, metadata: fields_clone(&self.metadata) }
    }
}

/// The configuration of a collection: name, embedding dimension and
/// distance metric.
#[derive(Debug)]
pub struct CollectionConfig {
    pub name: String,
    pub dimension: usize,
    pub distance_metric: DistanceMetric,
}

/// The model of a `CollectionConfig`.
pub struct CollectionConfigModel {
    pub name: Seq<char>,
    pub dimension: usize,
    pub distance_metric: DistanceMetric,
}

impl View for CollectionConfig {
    type V = CollectionConfigModel;

    open spec fn view(&self) -> CollectionConfigModel {
        CollectionConfigModel {
            name: self.name@,
            dimension: self.dimension,
            distance_metric: self.distance_metric,
        }
    }
}

impl CollectionConfig {
    /// Whether a configuration is acceptable: a non-empty name and a
    /// positive dimension.
    pub open spec fn spec_valid(self) -> bool {
        self.name@.len() > 0 && self.dimension > 0
    }

    /// A validated configuration; rejects an empty name or a zero
    /// dimension.
    pub fn new(name: String, dimension: usize, distance_metric: DistanceMetric) -> (r: Result<
        CollectionConfig,
        VectorError,
    >)
        ensures
            name@.len() > 0 && dimension > 0 <==> r is Ok,
            r matches Ok(c) ==> c@ == (CollectionConfigModel { name: name@, dimension, distance_metric }),
            name@.len() == 0 ==> (r matches Err(e) && e matches VectorError::Validation {
                field,
                ..
            } && field@ == "name"@),
            name@.len() > 0 && dimension == 0 ==> (r matches Err(e) && e
                matches VectorError::Validation { field, .. } && field@ == "dimension"@),
    {
        if name.as_str().is_empty() {
            Err(VectorError::Validation {
                field: make_string("name"),
                message: make_string("collection name cannot be empty"),
            })
        } else if dimension == 0 {
            Err(VectorError::Validation {
                field: make_string("dimension"),
                message: make_string("dimension must be greater than 0"),
            })
        } else {
            Ok(CollectionConfig { name, dimension, distance_metric })
        }
    }

    /// A configuration taken as given, without validation.
    pub fn new_unchecked(name: String, dimension: usize, distance_metric: DistanceMetric) -> (r:
        CollectionConfig)
        ensures
            r@ == (CollectionConfigModel { name: name@, dimension, distance_metric }),
    {
        CollectionConfig { name, dimension, distance_metric }
    }

    /// Re-check an existing configuration.
    pub fn validate(&self) -> (r: Result<(), VectorError>)
        ensures
            r is Ok <==> self.spec_valid(),
    {
        if self.name.as_str().is_empty() {
            Err(VectorError::Validation {
                field: make_string("name"),
                message: make_string("collection name cannot be empty"),
            })
        } else if self.dimension == 0 {
            Err(VectorError::Validation {
                field: make_string("dimension"),
                message: make_string("dimension must be greater than 0"),
            })
        } else {
            Ok(())
        }
    }

    /// A copy of the configuration with the same model.
    pub fn clone_config(&self) -> (r: CollectionConfig)
        ensures
            r@ == self@,
    {
        CollectionConfig {
            name: self.name.clone(),
            dimension: self.dimension,
            distance_metric: self.distance_metric,
        }
    }
}

/// Parameters of a similarity search. The score threshold is carried as
/// a raw 32-bit IEEE bit pattern.
#[derive(Debug)]
pub struct SearchParams {
    pub limit: usize,
    pub threshold_bits: Option<u32>,
    pub filters: Vec<(String, JsonValue)>,
    pub include_vectors: bool,
}

/// The model of `SearchParams`.
pub struct SearchParamsModel {
    pub limit: usize,
    pub threshold_bits: Option<u32>,
    pub filters: Seq<(Seq<char>, JsonModel)>,
    pub include_vectors: bool,
}

impl View for SearchParams {
    type V = SearchParamsModel;

    open spec fn view(&self) -> SearchParamsModel {
        SearchParamsModel {
            limit: self.limit,
            threshold_bits: self.threshold_bits,
            filters: fields_model(self.filters@),
            include_vectors: self.include_vectors,
        }
    }
}

impl SearchParams {
    /// Add one (field, value) filter pair.
    pub fn with_filter(self, key: String, value: JsonValue) -> (r: SearchParams)
        ensures
            r@ == (SearchParamsModel {
                filters: self@.filters.push((key@, value@)),
                ..self@
            }),
    {
        let mut p = self;
        let ghost before = p.filters@;
        p.filters.push((key, value));
        proof {
            crate::json::lemma_fields_model(p.filters@);
            crate::json::lemma_fields_model(before);
            assert(fields_model(p.filters@) =~= fields_model(before).push(
                (p.filters@.last().0@, crate::json::json_model(p.filters@.last().1)),
            ));
        }
        p
    }

    /// Parameters with the given result limit, no threshold and no
    /// filters.
    pub fn with_limit(limit: usize) -> (r: SearchParams)
        ensures
            r@ == (SearchParamsModel {
                limit,
                threshold_bits: None,
                filters: Seq::empty(),
                include_vectors: false,
            }),
    {
        let r = SearchParams {
            limit,
            threshold_bits: None,
            filters: Vec::new(),
            include_vectors: false,
        };
        proof {
            assert(fields_model(r.filters@) =~= Seq::<(Seq<char>, JsonModel)>::empty());
        }
        r
    }
}

/// One search hit: a record and its similarity score (as a raw 32-bit
/// IEEE bit pattern).
#[derive(Debug)]
pub struct VectorSearchResult {
    pub vector: Vector,
    pub score_bits: u32,
}

/// The model of a `VectorSearchResult`.
pub struct VectorSearchResultModel {
    pub vector: VectorRecordModel,
    pub score_bits: u32,
}

impl View for VectorSearchResult {
    type V = VectorSearchResultModel;

    open spec fn view(&self) -> VectorSearchResultModel {
        VectorSearchResultModel { vector: self.vector@, score_bits: self.score_bits }
    }
}

impl VectorSearchResult {
    /// A search hit from a record and a score.
    pub fn new(vector: Vector, score_bits: u32) -> (r: VectorSearchResult)
        ensures
            r@ == (VectorSearchResultModel { vector: vector@, score_bits }),
    {
        VectorSearchResult { vector, score_bits }
    }
}

} // verus!
