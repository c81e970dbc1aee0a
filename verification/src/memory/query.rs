//! Memory queries: which entries a retrieval returns.

use vstd::prelude::*;
use crate::memory::entry::{MemoryScope, MemoryType, SensitivityLevel};

verus! {

/// A retrieval query. Every filter that is set must match; results come
/// newest first, at most `limit` of them.
#[derive(Debug, Clone)]
pub struct MemoryQuery {
    /// Only entries of this scope.
    pub scope: Option<MemoryScope>,
    /// Only entries of this type.
    pub memory_type: Option<MemoryType>,
    /// Only entries carrying all of these tags.
    pub tags: Vec<String>,
    /// Free-text search (carried for backends that support it).
    pub text_query: Option<String>,
    /// Similarity search vector, as the bit patterns of its 64-bit
    /// floating-point components (carried for backends that support it).
    pub embedding_query: Option<Vec<u64>>,
    /// At most this many results.
    pub limit: Option<usize>,
    /// Only entries at or below this sensitivity.
    pub max_sensitivity: Option<SensitivityLevel>,
    /// Whether expired entries are included.
    pub include_expired: bool,
}

impl MemoryQuery {
    /// A query matching every unexpired entry.
    pub fn all() -> (r: Self)
        ensures
            r.scope is None,
            r.memory_type is None,
            r.tags@.len() == 0,
            r.text_query is None,
            r.embedding_query is None,
            r.limit is None,
            r.max_sensitivity is None,
            !r.include_expired,
    {
        MemoryQuery {
            scope: None,
            memory_type: None,
            tags: Vec::new(),
            text_query: None,
            embedding_query: None,
            limit: None,
            max_sensitivity: None,
            include_expired: false,
        }
    }

    /// Restrict to a scope.
    pub fn with_scope(self, scope: MemoryScope) -> (r: Self)
        ensures
            r == (MemoryQuery { scope: Some(scope), ..self }),
    {
        MemoryQuery { scope: Some(scope), ..self }
    }

    /// Restrict to a memory type.
    pub fn with_type(self, memory_type: MemoryType) -> (r: Self)
        ensures
            r == (MemoryQuery { memory_type: Some(memory_type), ..self }),
    {
        MemoryQuery { memory_type: Some(memory_type), ..self }
    }

    /// Require tags.
    pub fn with_tags(self, tags: Vec<String>) -> (r: Self)
        ensures
            r == (MemoryQuery { tags, ..self }),
    {
        MemoryQuery { tags, ..self }
    }

    /// Limit the number of results.
    pub fn with_limit(self, limit: usize) -> (r: Self)
        ensures
            r == (MemoryQuery { limit: Some(limit), ..self }),
    {
        MemoryQuery { limit: Some(limit), ..self }
    }

    /// Cap the sensitivity.
    pub fn with_max_sensitivity(self, level: SensitivityLevel) -> (r: Self)
        ensures
            r == (MemoryQuery { max_sensitivity: Some(level), ..self }),
    {
        MemoryQuery { max_sensitivity: Some(level), ..self }
    }

    /// Search by similarity to a vector.
    pub fn with_embedding(self, embedding: Vec<u64>) -> (r: Self)
        ensures
            r == (MemoryQuery { embedding_query: Some(embedding), ..self }),
    {
        MemoryQuery { embedding_query: Some(embedding), ..self }
    }
}

impl Default for MemoryQuery {
    fn default() -> (r: Self)
        ensures
            r.scope is None,
            r.memory_type is None,
            r.tags@.len() == 0,
            r.limit is None,
            r.max_sensitivity is None,
            !r.include_expired,
    {
        Self::all()
    }
}

} // verus!
