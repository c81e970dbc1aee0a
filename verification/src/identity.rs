//! Strongly typed 128-bit identifiers for the swarm's domain entities.
//!
//! Every identifier is the 128-bit value of a UUID. Fresh identifiers are
//! random version-4 UUIDs; the textual form is the hyphenated lowercase UUID.

use vstd::prelude::*;

verus! {

/// The lowercase hexadecimal digit for a value below 16.
pub open spec fn hex_char(n: u128) -> char {
    if n < 10 {
        (('0' as u128) + n) as char
    } else {
        (('a' as u128) + n - 10) as char
    }
}

/// The `k`-th hexadecimal digit of `v`, counted from the most significant one.
pub open spec fn nibble(v: u128, k: int) -> u128 {
    (v >> ((124 - 4 * k) as u128)) & 15u128
}

/// How many hyphens precede position `i` of the hyphenated form.
pub open spec fn hyphens_before(i: int) -> int {
    (if i > 8 { 1int } else { 0int }) + (if i > 13 { 1int } else { 0int }) + (if i > 18 {
        1int
    } else {
        0int
    }) + (if i > 23 { 1int } else { 0int })
}

/// The hyphenated lowercase text of a UUID value, `8-4-4-4-12` hex digits.
pub open spec fn uuid_hyphenated(v: u128) -> Seq<char> {
    Seq::new(
        36,
        |i: int|
            if i == 8 || i == 13 || i == 18 || i == 23 {
                '-'
            } else {
                hex_char(nibble(v, i - hyphens_before(i)))
            },
    )
}

/// What `uuid::Uuid::parse_str` yields for a text, as the UUID's 128-bit value.
pub uninterp spec fn uuid_parse_spec(s: Seq<char>) -> Option<u128>;

/// A fresh random UUID (`uuid::Uuid::new_v4`), as its 128-bit value.
/// The contract states only what every outcome has: the version nibble is 4
/// and the variant bits are `10`.
#[verifier::external_body]
pub fn random_uuid() -> (r: u128)
    ensures
        (r >> 76u128) & 15u128 == 4u128,
        (r >> 62u128) & 3u128 == 2u128,
{
    uuid::Uuid::new_v4().as_u128()
}

/// The hyphenated text of a UUID (`Display` of `uuid::Uuid`). The contract
/// claims the lowercase `8-4-4-4-12` hexadecimal layout that the crate prints.
#[verifier::external_body]
pub fn uuid_text(v: u128) -> (r: String)
    ensures
        r@ == uuid_hyphenated(v),
{
    uuid::Uuid::from_u128(v).to_string()
}

/// Parse a UUID text (`uuid::Uuid::parse_str`). The contract names the result
/// and claims that the hyphenated lowercase text of a value parses back to it.
#[verifier::external_body]
pub fn parse_uuid(s: &str) -> (r: Option<u128>)
    ensures
        r == uuid_parse_spec(s@),
        forall|v: u128| s@ == uuid_hyphenated(v) ==> r == Some(v),
{
    uuid::Uuid::parse_str(s).ok().map(|u| u.as_u128())
}

/// A unique identifier for an agent instance.
#[derive(Debug, Clone, Copy, PartialEq, Eq, Hash, Structural)]
pub struct AgentId(u128);

impl View for AgentId {
    type V = u128;

    closed spec fn view(&self) -> u128 {
        self.0
    }
}

impl AgentId {
    /// Two identifiers with the same value are the same identifier.
    pub proof fn lemma_view_injective(a: Self, b: Self)
        ensures
            a@ == b@ <==> a == b,
    {
    }

    /// Create a new, random identifier.
    pub fn new() -> (r: Self)
        ensures
            (r@ >> 76u128) & 15u128 == 4u128,
    {
        AgentId(random_uuid())
    }

    /// Create an identifier from a known UUID value.
    pub fn from_uuid(uuid: u128) -> (r: Self)
        ensures
            r@ == uuid,
    {
        AgentId(uuid)
    }

    /// Return the underlying UUID value.
    pub fn as_uuid(&self) -> (r: u128)
        ensures
            r == self@,
    {
        self.0
    }

    /// The hyphenated lowercase text of this identifier.
    pub fn to_text(&self) -> (r: String)
        ensures
            r@ == uuid_hyphenated(self@),
    {
        uuid_text(self.0)
    }

    /// Parse an identifier from UUID text.
    pub fn parse(s: &str) -> (r: Option<Self>)
        ensures
            r.is_some() == uuid_parse_spec(s@).is_some(),
            r.is_some() ==> r.unwrap()@ == uuid_parse_spec(s@).unwrap(),
            forall|v: u128| s@ == uuid_hyphenated(v) ==> r.is_some() && r.unwrap()@ == v,
    {
        match parse_uuid(s) {
            Some(v) => Some(AgentId(v)),
            None => None,
        }
    }
}

/// A unique identifier for a task instance.
#[derive(Debug, Clone, Copy, PartialEq, Eq, Hash, Structural)]
pub struct TaskId(u128);

impl View for TaskId {
    type V = u128;

    closed spec fn view(&self) -> u128 {
        self.0
    }
}

impl TaskId {
    /// Two identifiers with the same value are the same identifier.
    pub proof fn lemma_view_injective(a: Self, b: Self)
        ensures
            a@ == b@ <==> a == b,
    {
    }

    /// Create a new, random identifier.
    pub fn new() -> (r: Self)
        ensures
            (r@ >> 76u128) & 15u128 == 4u128,
    {
        TaskId(random_uuid())
    }

    /// Create an identifier from a known UUID value.
    pub fn from_uuid(uuid: u128) -> (r: Self)
        ensures
            r@ == uuid,
    {
        TaskId(uuid)
    }

    /// Return the underlying UUID value.
    pub fn as_uuid(&self) -> (r: u128)
        ensures
            r == self@,
    {
        self.0
    }

    /// The hyphenated lowercase text of this identifier.
    pub fn to_text(&self) -> (r: String)
        ensures
            r@ == uuid_hyphenated(self@),
    {
        uuid_text(self.0)
    }

    /// Parse an identifier from UUID text.
    pub fn parse(s: &str) -> (r: Option<Self>)
        ensures
            r.is_some() == uuid_parse_spec(s@).is_some(),
            r.is_some() ==> r.unwrap()@ == uuid_parse_spec(s@).unwrap(),
            forall|v: u128| s@ == uuid_hyphenated(v) ==> r.is_some() && r.unwrap()@ == v,
    {
        match parse_uuid(s) {
            Some(v) => Some(TaskId(v)),
            None => None,
        }
    }
}

/// A unique identifier for a policy.
#[derive(Debug, Clone, Copy, PartialEq, Eq, Hash, Structural)]
pub struct PolicyId(u128);

impl View for PolicyId {
    type V = u128;

    closed spec fn view(&self) -> u128 {
        self.0
    }
}

impl PolicyId {
    /// Two identifiers with the same value are the same identifier.
    pub proof fn lemma_view_injective(a: Self, b: Self)
        ensures
            a@ == b@ <==> a == b,
    {
    }

    /// Create a new, random identifier.
    pub fn new() -> (r: Self)
        ensures
            (r@ >> 76u128) & 15u128 == 4u128,
    {
        PolicyId(random_uuid())
    }

    /// Create an identifier from a known UUID value.
    pub fn from_uuid(uuid: u128) -> (r: Self)
        ensures
            r@ == uuid,
    {
        PolicyId(uuid)
    }

    /// Return the underlying UUID value.
    pub fn as_uuid(&self) -> (r: u128)
        ensures
            r == self@,
    {
        self.0
    }

    /// The hyphenated lowercase text of this identifier.
    pub fn to_text(&self) -> (r: String)
        ensures
            r@ == uuid_hyphenated(self@),
    {
        uuid_text(self.0)
    }

    /// Parse an identifier from UUID text.
    pub fn parse(s: &str) -> (r: Option<Self>)
        ensures
            r.is_some() == uuid_parse_spec(s@).is_some(),
            r.is_some() ==> r.unwrap()@ == uuid_parse_spec(s@).unwrap(),
            forall|v: u128| s@ == uuid_hyphenated(v) ==> r.is_some() && r.unwrap()@ == v,
    {
        match parse_uuid(s) {
            Some(v) => Some(PolicyId(v)),
            None => None,
        }
    }
}

/// A unique identifier for a registered plugin.
#[derive(Debug, Clone, Copy, PartialEq, Eq, Hash, Structural)]
pub struct PluginId(u128);

impl View for PluginId {
    type V = u128;

    closed spec fn view(&self) -> u128 {
        self.0
    }
}

impl PluginId {
    /// Two identifiers with the same value are the same identifier.
    pub proof fn lemma_view_injective(a: Self, b: Self)
        ensures
            a@ == b@ <==> a == b,
    {
    }

    /// Create a new, random identifier.
    pub fn new() -> (r: Self)
        ensures
            (r@ >> 76u128) & 15u128 == 4u128,
    {
        PluginId(random_uuid())
    }

    /// Create an identifier from a known UUID value.
    pub fn from_uuid(uuid: u128) -> (r: Self)
        ensures
            r@ == uuid,
    {
        PluginId(uuid)
    }

    /// Return the underlying UUID value.
    pub fn as_uuid(&self) -> (r: u128)
        ensures
            r == self@,
    {
        self.0
    }

    /// The hyphenated lowercase text of this identifier.
    pub fn to_text(&self) -> (r: String)
        ensures
            r@ == uuid_hyphenated(self@),
    {
        uuid_text(self.0)
    }

    /// Parse an identifier from UUID text.
    pub fn parse(s: &str) -> (r: Option<Self>)
        ensures
            r.is_some() == uuid_parse_spec(s@).is_some(),
            r.is_some() ==> r.unwrap()@ == uuid_parse_spec(s@).unwrap(),
            forall|v: u128| s@ == uuid_hyphenated(v) ==> r.is_some() && r.unwrap()@ == v,
    {
        match parse_uuid(s) {
            Some(v) => Some(PluginId(v)),
            None => None,
        }
    }
}

/// A tenant identifier for logical isolation in a multi-tenant deployment.
#[derive(Debug, Clone, Copy, PartialEq, Eq, Hash, Structural)]
pub struct TenantId(u128);

impl View for TenantId {
    type V = u128;

    closed spec fn view(&self) -> u128 {
        self.0
    }
}

impl TenantId {
    /// Two identifiers with the same value are the same identifier.
    pub proof fn lemma_view_injective(a: Self, b: Self)
        ensures
            a@ == b@ <==> a == b,
    {
    }

    /// Create a new, random identifier.
    pub fn new() -> (r: Self)
        ensures
            (r@ >> 76u128) & 15u128 == 4u128,
    {
        TenantId(random_uuid())
    }

    /// Create an identifier from a known UUID value.
    pub fn from_uuid(uuid: u128) -> (r: Self)
        ensures
            r@ == uuid,
    {
        TenantId(uuid)
    }

    /// Return the underlying UUID value.
    pub fn as_uuid(&self) -> (r: u128)
        ensures
            r == self@,
    {
        self.0
    }

    /// The hyphenated lowercase text of this identifier.
    pub fn to_text(&self) -> (r: String)
        ensures
            r@ == uuid_hyphenated(self@),
    {
        uuid_text(self.0)
    }

    /// Parse an identifier from UUID text.
    pub fn parse(s: &str) -> (r: Option<Self>)
        ensures
            r.is_some() == uuid_parse_spec(s@).is_some(),
            r.is_some() ==> r.unwrap()@ == uuid_parse_spec(s@).unwrap(),
            forall|v: u128| s@ == uuid_hyphenated(v) ==> r.is_some() && r.unwrap()@ == v,
    {
        match parse_uuid(s) {
            Some(v) => Some(TenantId(v)),
            None => None,
        }
    }
}

/// A unique identifier for a memory entry.
#[derive(Debug, Clone, Copy, PartialEq, Eq, Hash, Structural)]
pub struct MemoryId(u128);

impl View for MemoryId {
    type V = u128;

    closed spec fn view(&self) -> u128 {
        self.0
    }
}

impl MemoryId {
    /// Two identifiers with the same value are the same identifier.
    pub proof fn lemma_view_injective(a: Self, b: Self)
        ensures
            a@ == b@ <==> a == b,
    {
    }

    /// Create a new, random identifier.
    pub fn new() -> (r: Self)
        ensures
            (r@ >> 76u128) & 15u128 == 4u128,
    {
        MemoryId(random_uuid())
    }

    /// Create an identifier from a known UUID value.
    pub fn from_uuid(uuid: u128) -> (r: Self)
        ensures
            r@ == uuid,
    {
        MemoryId(uuid)
    }

    /// Return the underlying UUID value.
    pub fn as_uuid(&self) -> (r: u128)
        ensures
            r == self@,
    {
        self.0
    }

    /// The hyphenated lowercase text of this identifier.
    pub fn to_text(&self) -> (r: String)
        ensures
            r@ == uuid_hyphenated(self@),
    {
        uuid_text(self.0)
    }

    /// Parse an identifier from UUID text.
    pub fn parse(s: &str) -> (r: Option<Self>)
        ensures
            r.is_some() == uuid_parse_spec(s@).is_some(),
            r.is_some() ==> r.unwrap()@ == uuid_parse_spec(s@).unwrap(),
            forall|v: u128| s@ == uuid_hyphenated(v) ==> r.is_some() && r.unwrap()@ == v,
    {
        match parse_uuid(s) {
            Some(v) => Some(MemoryId(v)),
            None => None,
        }
    }
}

/// A unique identifier for a learning output / learning rule.
#[derive(Debug, Clone, Copy, PartialEq, Eq, Hash, Structural)]
pub struct LearningRuleId(u128);

impl View for LearningRuleId {
    type V = u128;

    closed spec fn view(&self) -> u128 {
        self.0
    }
}

impl LearningRuleId {
    /// Two identifiers with the same value are the same identifier.
    pub proof fn lemma_view_injective(a: Self, b: Self)
        ensures
            a@ == b@ <==> a == b,
    {
    }

    /// Create a new, random identifier.
    pub fn new() -> (r: Self)
        ensures
            (r@ >> 76u128) & 15u128 == 4u128,
    {
        LearningRuleId(random_uuid())
    }

    /// Create an identifier from a known UUID value.
    pub fn from_uuid(uuid: u128) -> (r: Self)
        ensures
            r@ == uuid,
    {
        LearningRuleId(uuid)
    }

    /// Return the underlying UUID value.
    pub fn as_uuid(&self) -> (r: u128)
        ensures
            r == self@,
    {
        self.0
    }

    /// The hyphenated lowercase text of this identifier.
    pub fn to_text(&self) -> (r: String)
        ensures
            r@ == uuid_hyphenated(self@),
    {
        uuid_text(self.0)
    }

    /// Parse an identifier from UUID text.
    pub fn parse(s: &str) -> (r: Option<Self>)
        ensures
            r.is_some() == uuid_parse_spec(s@).is_some(),
            r.is_some() ==> r.unwrap()@ == uuid_parse_spec(s@).unwrap(),
            forall|v: u128| s@ == uuid_hyphenated(v) ==> r.is_some() && r.unwrap()@ == v,
    {
        match parse_uuid(s) {
            Some(v) => Some(LearningRuleId(v)),
            None => None,
        }
    }
}

/// A unique identifier for a personality profile.
#[derive(Debug, Clone, Copy, PartialEq, Eq, Hash, Structural)]
pub struct PersonalityId(u128);

impl View for PersonalityId {
    type V = u128;

    closed spec fn view(&self) -> u128 {
        self.0
    }
}

impl PersonalityId {
    /// Two identifiers with the same value are the same identifier.
    pub proof fn lemma_view_injective(a: Self, b: Self)
        ensures
            a@ == b@ <==> a == b,
    {
    }

    /// Create a new, random identifier.
    pub fn new() -> (r: Self)
        ensures
            (r@ >> 76u128) & 15u128 == 4u128,
    {
        PersonalityId(random_uuid())
    }

    /// Create an identifier from a known UUID value.
    pub fn from_uuid(uuid: u128) -> (r: Self)
        ensures
            r@ == uuid,
    {
        PersonalityId(uuid)
    }

    /// Return the underlying UUID value.
    pub fn as_uuid(&self) -> (r: u128)
        ensures
            r == self@,
    {
        self.0
    }

    /// The hyphenated lowercase text of this identifier.
    pub fn to_text(&self) -> (r: String)
        ensures
            r@ == uuid_hyphenated(self@),
    {
        uuid_text(self.0)
    }

    /// Parse an identifier from UUID text.
    pub fn parse(s: &str) -> (r: Option<Self>)
        ensures
            r.is_some() == uuid_parse_spec(s@).is_some(),
            r.is_some() ==> r.unwrap()@ == uuid_parse_spec(s@).unwrap(),
            forall|v: u128| s@ == uuid_hyphenated(v) ==> r.is_some() && r.unwrap()@ == v,
    {
        match parse_uuid(s) {
            Some(v) => Some(PersonalityId(v)),
            None => None,
        }
    }
}

} // verus!
