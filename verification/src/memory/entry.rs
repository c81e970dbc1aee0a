//! Memory entries: what is stored, where it belongs and how sensitive it is.

use vstd::prelude::*;
use crate::identity::MemoryId;
use crate::types::{now, Metadata, Timestamp};

verus! {

/// Where a memory entry belongs.
#[derive(Debug, Clone, PartialEq, Eq, Hash)]
pub enum MemoryScope {
    /// One session.
    Session { session_id: String },
    /// One task.
    Task { task_id: String },
    /// One agent.
    Agent { agent_id: String },
    /// One team.
    Team { team_id: String },
    /// One tenant.
    Tenant { tenant_id: String },
    /// Long-term memory of an owner.
    LongTerm { owner_id: String },
}

/// The value of a scope: its kind (0 session, 1 task, 2 agent, 3 team,
/// 4 tenant, 5 long-term) and its owner's identifier.
pub open spec fn scope_view(s: MemoryScope) -> (int, Seq<char>) {
    match s {
        MemoryScope::Session { session_id } => (0, session_id@),
        MemoryScope::Task { task_id } => (1, task_id@),
        MemoryScope::Agent { agent_id } => (2, agent_id@),
        MemoryScope::Team { team_id } => (3, team_id@),
        MemoryScope::Tenant { tenant_id } => (4, tenant_id@),
        MemoryScope::LongTerm { owner_id } => (5, owner_id@),
    }
}

/// The stable label of each scope kind.
pub open spec fn scope_label(s: MemoryScope) -> Seq<char> {
    match s {
        MemoryScope::Session { .. } => "session"@,
        MemoryScope::Task { .. } => "task"@,
        MemoryScope::Agent { .. } => "agent"@,
        MemoryScope::Team { .. } => "team"@,
        MemoryScope::Tenant { .. } => "tenant"@,
        MemoryScope::LongTerm { .. } => "long_term"@,
    }
}

impl MemoryScope {
    /// The scope kind's label.
    pub fn label(&self) -> (r: &'static str)
        ensures
            r@ == scope_label(*self),
    {
        proof {
            reveal_strlit("session");
            reveal_strlit("task");
            reveal_strlit("agent");
            reveal_strlit("team");
            reveal_strlit("tenant");
            reveal_strlit("long_term");
        }
        match self {
            MemoryScope::Session { .. } => "session",
            MemoryScope::Task { .. } => "task",
            MemoryScope::Agent { .. } => "agent",
            MemoryScope::Team { .. } => "team",
            MemoryScope::Tenant { .. } => "tenant",
            MemoryScope::LongTerm { .. } => "long_term",
        }
    }

    /// Whether two scopes are the same value.
    pub fn same_as(&self, other: &MemoryScope) -> (r: bool)
        ensures
            r == (scope_view(*self) == scope_view(*other)),
    {
        match (self, other) {
            (MemoryScope::Session { session_id: a }, MemoryScope::Session { session_id: b }) => *a == *b,
            (MemoryScope::Task { task_id: a }, MemoryScope::Task { task_id: b }) => *a == *b,
            (MemoryScope::Agent { agent_id: a }, MemoryScope::Agent { agent_id: b }) => *a == *b,
            (MemoryScope::Team { team_id: a }, MemoryScope::Team { team_id: b }) => *a == *b,
            (MemoryScope::Tenant { tenant_id: a }, MemoryScope::Tenant { tenant_id: b }) => *a == *b,
            (MemoryScope::LongTerm { owner_id: a }, MemoryScope::LongTerm { owner_id: b }) => *a == *b,
            _ => false,
        }
    }

    /// A copy of this scope.
    pub fn duplicate(&self) -> (r: MemoryScope)
        ensures
            scope_view(r) == scope_view(*self),
    {
        match self {
            MemoryScope::Session { session_id } => MemoryScope::Session { session_id: session_id.clone() },
            MemoryScope::Task { task_id } => MemoryScope::Task { task_id: task_id.clone() },
            MemoryScope::Agent { agent_id } => MemoryScope::Agent { agent_id: agent_id.clone() },
            MemoryScope::Team { team_id } => MemoryScope::Team { team_id: team_id.clone() },
            MemoryScope::Tenant { tenant_id } => MemoryScope::Tenant { tenant_id: tenant_id.clone() },
            MemoryScope::LongTerm { owner_id } => MemoryScope::LongTerm { owner_id: owner_id.clone() },
        }
    }
}

/// The kind of information a memory entry holds.
#[derive(Debug, Clone, Copy, PartialEq, Eq, Hash, Structural)]
pub enum MemoryType {
    /// Structured key-value data.
    Structured,
    /// Semantic content for similarity search.
    Semantic,
    /// A record of events.
    Episodic,
    /// How-to knowledge.
    Procedural,
    /// A reference to a knowledge source.
    KnowledgeRef,
    /// A summary of other memories.
    Summary,
    /// A link to an external resource.
    ExternalLink,
}

/// The stable label of each memory type.
pub open spec fn type_label(t: MemoryType) -> Seq<char> {
    match t {
        MemoryType::Structured => "structured"@,
        MemoryType::Semantic => "semantic"@,
        MemoryType::Episodic => "episodic"@,
        MemoryType::Procedural => "procedural"@,
        MemoryType::KnowledgeRef => "knowledge_ref"@,
        MemoryType::Summary => "summary"@,
        MemoryType::ExternalLink => "external_link"@,
    }
}

impl MemoryType {
    /// The type's label.
    pub fn label(&self) -> (r: &'static str)
        ensures
            r@ == type_label(*self),
    {
        proof {
            reveal_strlit("structured");
            reveal_strlit("semantic");
            reveal_strlit("episodic");
            reveal_strlit("procedural");
            reveal_strlit("knowledge_ref");
            reveal_strlit("summary");
            reveal_strlit("external_link");
        }
        match self {
            MemoryType::Structured => "structured",
            MemoryType::Semantic => "semantic",
            MemoryType::Episodic => "episodic",
            MemoryType::Procedural => "procedural",
            MemoryType::KnowledgeRef => "knowledge_ref",
            MemoryType::Summary => "summary",
            MemoryType::ExternalLink => "external_link",
        }
    }
}

/// How sensitive a memory entry is, from least to most.
#[derive(Debug, Clone, Copy, PartialEq, Eq, PartialOrd, Ord, Hash, Structural)]
pub enum SensitivityLevel {
    /// Freely shareable.
    Public,
    /// Internal to the organization (the default).
    Internal,
    /// Restricted to those who need it.
    Confidential,
    /// The most restricted.
    Restricted,
}

impl SensitivityLevel {
    /// The level's position in the order: 0 (public) to 3 (restricted).
    pub open spec fn rank(self) -> int {
        match self {
            SensitivityLevel::Public => 0,
            SensitivityLevel::Internal => 1,
            SensitivityLevel::Confidential => 2,
            SensitivityLevel::Restricted => 3,
        }
    }

    /// The level's position in the order.
    pub fn level(&self) -> (r: u8)
        ensures
            r as int == self.rank(),
    {
        match self {
            SensitivityLevel::Public => 0,
            SensitivityLevel::Internal => 1,
            SensitivityLevel::Confidential => 2,
            SensitivityLevel::Restricted => 3,
        }
    }

    /// Whether this level is above `other`.
    pub fn exceeds(&self, other: &SensitivityLevel) -> (r: bool)
        ensures
            r == (self.rank() > other.rank()),
            r == more_sensitive(*self, *other),
    {
        proof {
            lemma_sensitivity_levels_rise(*self, *other);
        }
        self.level() > other.level()
    }
}

impl Default for SensitivityLevel {
    fn default() -> (r: Self)
        ensures
            r == SensitivityLevel::Internal,
    {
        SensitivityLevel::Internal
    }
}

/// A stored unit of memory.
#[derive(Debug)]
pub struct MemoryEntry {
    /// Unique identifier.
    pub id: MemoryId,
    /// Where the entry belongs.
    pub scope: MemoryScope,
    /// What kind of information it holds.
    pub memory_type: MemoryType,
    /// The content.
    pub content: serde_json::Value,
    /// An embedding vector for similarity search, as the bit patterns of its
    /// 64-bit floating-point components.
    pub embedding: Option<Vec<u64>>,
    /// How sensitive the entry is.
    pub sensitivity: SensitivityLevel,
    /// Free-form tags.
    pub tags: Vec<String>,
    /// Arbitrary metadata.
    pub metadata: Metadata,
    /// When the entry was created.
    pub created_at: Timestamp,
    /// When the entry was last read.
    pub last_accessed_at: Option<Timestamp>,
    /// When the entry expires.
    pub expires_at: Option<Timestamp>,
}

/// The texts of a list of strings.
pub open spec fn tag_texts(s: Seq<String>) -> Seq<Seq<char>> {
    s.map_values(|x: String| x@)
}

/// Whether two entries hold the same values.
pub open spec fn same_entry(a: MemoryEntry, b: MemoryEntry) -> bool {
    &&& a.id == b.id
    &&& scope_view(a.scope) == scope_view(b.scope)
    &&& a.memory_type == b.memory_type
    &&& a.content == b.content
    &&& (match (a.embedding, b.embedding) {
        (Some(x), Some(y)) => x@ == y@,
        (None, None) => true,
        _ => false,
    })
    &&& a.sensitivity == b.sensitivity
    &&& tag_texts(a.tags@) == tag_texts(b.tags@)
    &&& a.metadata@ == b.metadata@
    &&& a.created_at == b.created_at
    &&& a.last_accessed_at == b.last_accessed_at
    &&& a.expires_at == b.expires_at
}

/// Whether an entry has expired at time `at`: it has an expiry and `at` is
/// past it.
pub open spec fn expired_at_spec(e: MemoryEntry, at: Timestamp) -> bool {
    match e.expires_at {
        Some(exp) => at > exp,
        None => false,
    }
}

impl MemoryEntry {
    /// A new entry with a fresh identifier, default sensitivity, no tags,
    /// metadata, embedding or expiry, created now.
    pub fn new(scope: MemoryScope, memory_type: MemoryType, content: serde_json::Value) -> (r: Self)
        ensures
            r.scope == scope,
            r.memory_type == memory_type,
            r.content == content,
            r.embedding is None,
            r.sensitivity == SensitivityLevel::Internal,
            r.tags@.len() == 0,
            r.metadata@ == Map::<Seq<char>, Seq<char>>::empty(),
            r.last_accessed_at is None,
            r.expires_at is None,
    {
        MemoryEntry {
            id: MemoryId::new(),
            scope,
            memory_type,
            content,
            embedding: None,
            sensitivity: SensitivityLevel::default(),
            tags: Vec::new(),
            metadata: Metadata::new(),
            created_at: now(),
            last_accessed_at: None,
            expires_at: None,
        }
    }

    /// Whether the entry has expired at time `at`.
    pub fn expired_at(&self, at: Timestamp) -> (r: bool)
        ensures
            r == expired_at_spec(*self, at),
    {
        match self.expires_at {
            Some(exp) => at > exp,
            None => false,
        }
    }

    /// Whether the entry has expired now. An entry without an expiry never
    /// expires.
    pub fn is_expired(&self) -> (r: bool)
        ensures
            self.expires_at is None ==> !r,
            r ==> self.expires_at is Some,
    {
        self.expired_at(now())
    }

    /// A copy of this entry.
    pub fn duplicate(&self) -> (r: MemoryEntry)
        ensures
            same_entry(r, *self),
    {
        let embedding = match &self.embedding {
            Some(v) => Some(copy_bits(v)),
            None => None,
        };
        MemoryEntry {
            id: self.id,
            scope: self.scope.duplicate(),
            memory_type: self.memory_type,
            content: self.content.clone(),
            embedding,
            sensitivity: self.sensitivity,
            tags: copy_strings(&self.tags),
            metadata: self.metadata.duplicate(),
            created_at: self.created_at,
            last_accessed_at: self.last_accessed_at,
            expires_at: self.expires_at,
        }
    }
}

/// A copy of a list of numbers.
pub fn copy_bits(v: &Vec<u64>) -> (r: Vec<u64>)
    ensures
        r@ == v@,
{
    let mut out: Vec<u64> = Vec::new();
    let mut i: usize = 0;
    while i < v.len()
        invariant
            i <= v@.len(),
            out@ == v@.take(i as int),
        decreases v@.len() - i,
    {
        out.push(v[i]);
        i = i + 1;
        assert(out@ =~= v@.take(i as int));
    }
    assert(v@.take(i as int) =~= v@);
    out
}

/// A copy of a list of strings.
pub fn copy_strings(v: &Vec<String>) -> (r: Vec<String>)
    ensures
        tag_texts(r@) == tag_texts(v@),
{
    let mut out: Vec<String> = Vec::new();
    let mut i: usize = 0;
    while i < v.len()
        invariant
            i <= v@.len(),
            out@.len() == i,
            forall|k: int| 0 <= k < i ==> (#[trigger] out@[k])@ == v@[k]@,
        decreases v@.len() - i,
    {
        out.push(v[i].clone());
        i = i + 1;
    }
    assert(tag_texts(out@) =~= tag_texts(v@));
    out
}

/// Whether level `a` is more restricted than level `b` in the declared order
/// `Public`, `Internal`, `Confidential`, `Restricted`.
pub open spec fn more_sensitive(a: SensitivityLevel, b: SensitivityLevel) -> bool {
    match (a, b) {
        (SensitivityLevel::Restricted, SensitivityLevel::Confidential) => true,
        (SensitivityLevel::Restricted, SensitivityLevel::Internal) => true,
        (SensitivityLevel::Restricted, SensitivityLevel::Public) => true,
        (SensitivityLevel::Confidential, SensitivityLevel::Internal) => true,
        (SensitivityLevel::Confidential, SensitivityLevel::Public) => true,
        (SensitivityLevel::Internal, SensitivityLevel::Public) => true,
        _ => false,
    }
}

/// Sensitivity levels rise in the declared order: one level is above
/// another exactly when it is more restricted.
pub proof fn lemma_sensitivity_levels_rise(a: SensitivityLevel, b: SensitivityLevel)
    ensures
        more_sensitive(a, b) <==> a.rank() > b.rank(),
        SensitivityLevel::Public.rank() < SensitivityLevel::Internal.rank(),
        SensitivityLevel::Internal.rank() < SensitivityLevel::Confidential.rank(),
        SensitivityLevel::Confidential.rank() < SensitivityLevel::Restricted.rank(),
{
}

} // verus!
