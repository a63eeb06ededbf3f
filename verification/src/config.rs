//! Backend connection configuration.
//!
//! Only the pure parts live here: the default values, the plugin identity
//! and the validation rules. Reading environment variables is I/O and is
//! done by the unverified shell, which hands the resulting plain values
//! back into this type.

use vstd::prelude::*;

use crate::errors::VectorError;
use crate::qdrant_errors::make_string;

verus! {

/// Connection settings for a Qdrant-style backend.
#[derive(Clone, Debug)]
pub struct QdrantConfig {
    /// Server URL.
    pub url: String,
    /// API key for authentication (optional for local instances).
    pub api_key: Option<String>,
    /// Connection timeout in seconds.
    pub timeout_seconds: u64,
    /// Maximum batch size for operations.
    pub max_batch_size: usize,
    /// Enable gRPC compression.
    pub enable_compression: bool,
    /// Retry attempts for failed operations.
    pub retry_attempts: u32,
    /// Delay between retries in milliseconds.
    pub retry_delay_ms: u64,
    /// Default collection shard number.
    pub default_shard_number: u32,
    /// Default replication factor.
    pub default_replication_factor: u32,
}

impl QdrantConfig {
    /// Whether a configuration is acceptable: a non-empty URL and
    /// positive timeout, batch size, shard number and replication factor.
    pub open spec fn spec_valid(self) -> bool {
        &&& self.url@.len() > 0
        &&& self.timeout_seconds > 0
        &&& self.max_batch_size > 0
        &&& self.default_shard_number > 0
        &&& self.default_replication_factor > 0
    }

    /// The plugin name.
    pub fn name(&self) -> (r: &'static str)
        ensures
            r@ == "qdrant"@,
    {
        "qdrant"
    }

    /// The environment-variable prefix the shell reads settings from.
    pub fn env_prefix(&self) -> (r: &'static str)
        ensures
            r@ == "TYL_QDRANT"@,
    {
        "TYL_QDRANT"
    }

    /// Check the configuration; the error names the first offending
    /// field, in declaration order.
    pub fn validate(&self) -> (r: Result<(), VectorError>)
        ensures
            r is Ok <==> self.spec_valid(),
            r matches Err(e) ==> e matches VectorError::Validation { .. },
            self.url@.len() == 0 ==> (r matches Err(e) && e matches VectorError::Validation {
                field,
                ..
            } && field@ == "url"@),
            self.url@.len() > 0 && self.timeout_seconds == 0 ==> (r matches Err(e) && e
                matches VectorError::Validation { field, .. } && field@ == "timeout_seconds"@),
            self.url@.len() > 0 && self.timeout_seconds > 0 && self.max_batch_size == 0 ==> (r
                matches Err(e) && e matches VectorError::Validation { field, .. } && field@
                == "max_batch_size"@),
            self.url@.len() > 0 && self.timeout_seconds > 0 && self.max_batch_size > 0
                && self.default_shard_number == 0 ==> (r matches Err(e) && e
                matches VectorError::Validation { field, .. } && field@
                == "default_shard_number"@),
            self.url@.len() > 0 && self.timeout_seconds > 0 && self.max_batch_size > 0
                && self.default_shard_number > 0 && self.default_replication_factor == 0 ==> (r
                matches Err(e) && e matches VectorError::Validation { field, .. } && field@
                == "default_replication_factor"@),
    {
        if self.url.as_str().is_empty() {
            Err(VectorError::Validation {
                field: make_string("url"),
                message: make_string("Qdrant URL cannot be empty"),
            })
        } else if self.timeout_seconds == 0 {
            Err(VectorError::Validation {
                field: make_string("timeout_seconds"),
                message: make_string("Timeout must be greater than 0"),
            })
        } else if self.max_batch_size == 0 {
            Err(VectorError::Validation {
                field: make_string("max_batch_size"),
                message: make_string("Max batch size must be greater than 0"),
            })
        } else if self.default_shard_number == 0 {
            Err(VectorError::Validation {
                field: make_string("default_shard_number"),
                message: make_string("Shard number must be greater than 0"),
            })
        } else if self.default_replication_factor == 0 {
            Err(VectorError::Validation {
                field: make_string("default_replication_factor"),
                message: make_string("Replication factor must be greater than 0"),
            })
        } else {
            Ok(())
        }
    }
}

impl Default for QdrantConfig {
    /// Local defaults: localhost URL, 30 s timeout, batches of 100,
    /// compression on, 3 retries spaced 1000 ms, one shard, one replica.
    fn default() -> (r: QdrantConfig)
        ensures
            r.url@ == "http://localhost:6333"@,
            r.api_key is None,
            r.timeout_seconds == 30,
            r.max_batch_size == 100,
            r.enable_compression == true,
            r.retry_attempts == 3,
            r.retry_delay_ms == 1000,
            r.default_shard_number == 1,
            r.default_replication_factor == 1,
    {
        QdrantConfig {
            url: make_string("http://localhost:6333"),
            api_key: None,
            timeout_seconds: 30,
            max_batch_size: 100,
            enable_compression: true,
            retry_attempts: 3,
            retry_delay_ms: 1000,
            default_shard_number: 1,
            default_replication_factor: 1,
        }
    }
}

} // verus!
