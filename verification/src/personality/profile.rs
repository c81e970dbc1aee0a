//! Personality profiles and the overlays that refine them.
//!
//! A profile captures how an agent communicates, decides and collaborates.
//! Profiles compose: an overlay merges on top of a profile, replacing the
//! traits it sets and adding its custom traits.

use vstd::prelude::*;
use crate::identity::PersonalityId;
use crate::memory::entry::{copy_strings, tag_texts};
use crate::text::{opt_string_clone, opt_view, owned, str_eq};

verus! {

/// Risk tolerance level, from lowest to highest.
#[derive(Debug, Clone, Copy, PartialEq, Eq, Structural)]
pub enum RiskTolerance {
    /// Avoid all risk; escalate if uncertain.
    VeryLow,
    /// Slight risk is acceptable with justification.
    Low,
    /// Balanced risk assessment.
    Medium,
    /// Comfortable with moderate risk.
    High,
    /// Willing to take significant risks.
    VeryHigh,
}

impl RiskTolerance {
    /// The position of the level in the order, lowest first.
    pub open spec fn rank(self) -> u8 {
        match self {
            RiskTolerance::VeryLow => 0,
            RiskTolerance::Low => 1,
            RiskTolerance::Medium => 2,
            RiskTolerance::High => 3,
            RiskTolerance::VeryHigh => 4,
        }
    }

    /// The position of the level in the order, lowest first.
    pub fn level(&self) -> (r: u8)
        ensures
            r == self.rank(),
    {
        match self {
            RiskTolerance::VeryLow => 0,
            RiskTolerance::Low => 1,
            RiskTolerance::Medium => 2,
            RiskTolerance::High => 3,
            RiskTolerance::VeryHigh => 4,
        }
    }
}

impl Default for RiskTolerance {
    /// Balanced risk assessment.
    fn default() -> (r: Self)
        ensures
            r == RiskTolerance::Medium,
    {
        RiskTolerance::Medium
    }
}

/// Collaboration pattern with other agents.
#[derive(Debug, Clone, Copy, PartialEq, Eq, Structural)]
pub enum CollaborationPattern {
    /// Works independently; minimal coordination.
    Independent,
    /// Coordinates on demand when explicitly asked.
    Cooperative,
    /// Actively seeks collaboration and delegates.
    Collaborative,
    /// Leads and directs other agents.
    Directive,
}

impl Default for CollaborationPattern {
    /// Coordinates on demand.
    fn default() -> (r: Self)
        ensures
            r == CollaborationPattern::Cooperative,
    {
        CollaborationPattern::Cooperative
    }
}

/// Communication style preferences.
#[derive(Debug, Clone)]
pub struct CommunicationStyle {
    /// Tone (e.g. `formal`, `friendly`, `concise`, `technical`).
    pub tone: String,
    /// Verbosity level: 1 (minimal) to 5 (very detailed).
    pub verbosity: u8,
    /// Preferred language for responses (a BCP 47 tag such as `en-US`).
    pub language: String,
    /// Whether the agent should use domain-specific jargon.
    pub use_jargon: bool,
}

/// Whether two communication styles hold the same values.
pub open spec fn same_style(a: CommunicationStyle, b: CommunicationStyle) -> bool {
    &&& a.tone@ == b.tone@
    &&& a.verbosity == b.verbosity
    &&& a.language@ == b.language@
    &&& a.use_jargon == b.use_jargon
}

impl CommunicationStyle {
    /// A copy of this style.
    pub fn duplicate(&self) -> (r: Self)
        ensures
            same_style(r, *self),
    {
        CommunicationStyle {
            tone: self.tone.clone(),
            verbosity: self.verbosity,
            language: self.language.clone(),
            use_jargon: self.use_jargon,
        }
    }
}

impl Default for CommunicationStyle {
    /// Professional tone, medium verbosity, US English, no jargon.
    fn default() -> (r: Self)
        ensures
            r.tone@ == "professional"@,
            r.verbosity == 3,
            r.language@ == "en-US"@,
            !r.use_jargon,
    {
        proof {
            reveal_strlit("professional");
            reveal_strlit("en-US");
        }
        CommunicationStyle {
            tone: owned("professional"),
            verbosity: 3,
            language: owned("en-US"),
            use_jargon: false,
        }
    }
}

/// Decision-making tendencies. The two preferences are fractions between 0
/// and 1, held as the bits of their IEEE 754 double-precision values.
#[derive(Debug, Clone, Copy, PartialEq, Eq, Structural)]
pub struct DecisionTendencies {
    /// Preference for speed against thoroughness (0 = fastest, 1 = most
    /// thorough), as IEEE 754 bits.
    pub thoroughness_bits: u64,
    /// Whether the agent prefers consensus before acting.
    pub consensus_seeking: bool,
    /// Regard for precedent against innovation (0 = conservative,
    /// 1 = innovative), as IEEE 754 bits.
    pub innovation_bias_bits: u64,
}

/// The IEEE 754 bits of one half.
pub const HALF_BITS: u64 = 0x3FE0_0000_0000_0000;

/// The IEEE 754 bits of the double nearest to three tenths.
pub const THREE_TENTHS_BITS: u64 = 0x3FD3_3333_3333_3333;

impl Default for DecisionTendencies {
    /// Thoroughness one half, no consensus seeking, innovation bias three
    /// tenths.
    fn default() -> (r: Self)
        ensures
            r.thoroughness_bits == HALF_BITS,
            !r.consensus_seeking,
            r.innovation_bias_bits == THREE_TENTHS_BITS,
    {
        DecisionTendencies {
            thoroughness_bits: HALF_BITS,
            consensus_seeking: false,
            innovation_bias_bits: THREE_TENTHS_BITS,
        }
    }
}

/// Escalation behavior when encountering uncertainty or failure.
#[derive(Debug, Clone)]
pub struct EscalationBehavior {
    /// When to escalate: `immediate`, `after_retry` or `never`.
    pub trigger: String,
    /// Maximum retries before escalation.
    pub max_retries_before_escalation: u32,
    /// Whether to include full context in escalation reports.
    pub include_full_context: bool,
}

/// Whether two escalation behaviors hold the same values.
pub open spec fn same_escalation(a: EscalationBehavior, b: EscalationBehavior) -> bool {
    &&& a.trigger@ == b.trigger@
    &&& a.max_retries_before_escalation == b.max_retries_before_escalation
    &&& a.include_full_context == b.include_full_context
}

impl EscalationBehavior {
    /// A copy of this behavior.
    pub fn duplicate(&self) -> (r: Self)
        ensures
            same_escalation(r, *self),
    {
        EscalationBehavior {
            trigger: self.trigger.clone(),
            max_retries_before_escalation: self.max_retries_before_escalation,
            include_full_context: self.include_full_context,
        }
    }
}

impl Default for EscalationBehavior {
    /// Escalate after retrying twice, with full context.
    fn default() -> (r: Self)
        ensures
            r.trigger@ == "after_retry"@,
            r.max_retries_before_escalation == 2,
            r.include_full_context,
    {
        proof {
            reveal_strlit("after_retry");
        }
        EscalationBehavior {
            trigger: owned("after_retry"),
            max_retries_before_escalation: 2,
            include_full_context: true,
        }
    }
}

/// Response formatting preferences.
#[derive(Debug, Clone)]
pub struct ResponseFormatting {
    /// Preferred output format (e.g. `markdown`, `plain`, `json`).
    pub format: String,
    /// Whether to include reasoning steps in output.
    pub show_reasoning: bool,
    /// Whether to include confidence indicators.
    pub show_confidence: bool,
    /// Maximum response length hint in characters (0 = no limit).
    pub max_length_hint: usize,
}

/// Whether two formatting preferences hold the same values.
pub open spec fn same_formatting(a: ResponseFormatting, b: ResponseFormatting) -> bool {
    &&& a.format@ == b.format@
    &&& a.show_reasoning == b.show_reasoning
    &&& a.show_confidence == b.show_confidence
    &&& a.max_length_hint == b.max_length_hint
}

impl ResponseFormatting {
    /// A copy of these preferences.
    pub fn duplicate(&self) -> (r: Self)
        ensures
            same_formatting(r, *self),
    {
        ResponseFormatting {
            format: self.format.clone(),
            show_reasoning: self.show_reasoning,
            show_confidence: self.show_confidence,
            max_length_hint: self.max_length_hint,
        }
    }
}

impl Default for ResponseFormatting {
    /// Markdown, without reasoning or confidence, with no length limit.
    fn default() -> (r: Self)
        ensures
            r.format@ == "markdown"@,
            !r.show_reasoning,
            !r.show_confidence,
            r.max_length_hint == 0,
    {
        proof {
            reveal_strlit("markdown");
        }
        ResponseFormatting { format: owned("markdown"), show_reasoning: false, show_confidence: false, max_length_hint: 0 }
    }
}

/// Whether some pair of `s` has the name `k`.
pub open spec fn has_name(s: Seq<(String, serde_json::Value)>, k: Seq<char>) -> bool {
    exists|i: int| #![trigger s[i]] 0 <= i < s.len() && s[i].0@ == k
}

/// The position of a pair of `s` named `k`.
pub open spec fn name_index(s: Seq<(String, serde_json::Value)>, k: Seq<char>) -> int {
    choose|i: int| #![trigger s[i]] 0 <= i < s.len() && s[i].0@ == k
}

/// Whether no two pairs of `s` share a name.
pub open spec fn unique_names(s: Seq<(String, serde_json::Value)>) -> bool {
    forall|a: int, b: int| 0 <= a < b < s.len() ==> s[a].0@ != s[b].0@
}

/// The map from names to values that the pairs of `s` make.
pub open spec fn pairs_view(s: Seq<(String, serde_json::Value)>) -> Map<Seq<char>, serde_json::Value> {
    Map::new(|k: Seq<char>| has_name(s, k), |k: Seq<char>| s[name_index(s, k)].1)
}

/// In pairs with unique names, the pair found under a name is the one that
/// has it.
pub proof fn lemma_name_index(s: Seq<(String, serde_json::Value)>, i: int)
    requires
        unique_names(s),
        0 <= i < s.len(),
    ensures
        has_name(s, s[i].0@),
        name_index(s, s[i].0@) == i,
{
    assert(s[i].0@ == s[i].0@);
    let j = name_index(s, s[i].0@);
    if j != i {
        if j < i {
            assert(s[j].0@ != s[i].0@);
        } else {
            assert(s[i].0@ != s[j].0@);
        }
    }
}

/// Appending a pair under a new name adds that name to the map.
pub proof fn lemma_pairs_view_push(s: Seq<(String, serde_json::Value)>, x: (String, serde_json::Value))
    requires
        unique_names(s),
        !has_name(s, x.0@),
    ensures
        unique_names(s.push(x)),
        pairs_view(s.push(x)) == pairs_view(s).insert(x.0@, x.1),
{
    let t = s.push(x);
    assert forall|a: int, b: int| 0 <= a < b < t.len() implies t[a].0@ != t[b].0@ by {
        if b == s.len() {
            assert(t[a] == s[a]);
        } else {
            assert(t[a] == s[a] && t[b] == s[b]);
        }
    }
    assert forall|k: Seq<char>| has_name(t, k) <==> has_name(s, k) || k == x.0@ by {
        if has_name(t, k) {
            let i = choose|i: int| #![trigger t[i]] 0 <= i < t.len() && t[i].0@ == k;
            if i < s.len() {
                assert(s[i] == t[i]);
            }
        }
        if has_name(s, k) {
            let i = choose|i: int| #![trigger s[i]] 0 <= i < s.len() && s[i].0@ == k;
            assert(t[i] == s[i]);
        }
        if k == x.0@ {
            assert(t[s.len() as int] == x);
        }
    }
    assert forall|k: Seq<char>| #[trigger] has_name(t, k) implies t[name_index(t, k)].1 == pairs_view(s).insert(x.0@, x.1)[k] by {
        let i = name_index(t, k);
        lemma_name_index(t, i);
        if k == x.0@ {
            lemma_name_index(t, s.len() as int);
        } else {
            assert(i < s.len());
            assert(t[i] == s[i]);
            lemma_name_index(s, i);
        }
    }
    assert(pairs_view(t) =~= pairs_view(s).insert(x.0@, x.1));
}

/// Replacing the value of a pair keeps the names and sets that name's value.
pub proof fn lemma_pairs_view_update(s: Seq<(String, serde_json::Value)>, i: int, x: (String, serde_json::Value))
    requires
        unique_names(s),
        0 <= i < s.len(),
        s[i].0@ == x.0@,
    ensures
        unique_names(s.update(i, x)),
        pairs_view(s.update(i, x)) == pairs_view(s).insert(x.0@, x.1),
{
    let t = s.update(i, x);
    assert forall|a: int, b: int| 0 <= a < b < t.len() implies t[a].0@ != t[b].0@ by {
        assert(t[a].0@ == s[a].0@ && t[b].0@ == s[b].0@);
    }
    assert forall|k: Seq<char>| has_name(t, k) <==> has_name(s, k) by {
        if has_name(t, k) {
            let j = choose|j: int| #![trigger t[j]] 0 <= j < t.len() && t[j].0@ == k;
            assert(s[j].0@ == t[j].0@);
        }
        if has_name(s, k) {
            let j = choose|j: int| #![trigger s[j]] 0 <= j < s.len() && s[j].0@ == k;
            assert(s[j].0@ == t[j].0@);
        }
    }
    assert(has_name(s, x.0@)) by {
        assert(s[i].0@ == x.0@);
    }
    assert forall|k: Seq<char>| #[trigger] has_name(t, k) implies t[name_index(t, k)].1 == pairs_view(s).insert(x.0@, x.1)[k] by {
        let j = name_index(t, k);
        lemma_name_index(t, j);
        if k == x.0@ {
            lemma_name_index(t, i);
        } else {
            assert(j != i);
            assert(t[j] == s[j]);
            lemma_name_index(s, j);
        }
    }
    assert(pairs_view(t) =~= pairs_view(s).insert(x.0@, x.1));
}

/// Named custom traits with JSON values, each name at most once.
#[derive(Debug)]
pub struct TraitMap {
    pairs: Vec<(String, serde_json::Value)>,
}

impl View for TraitMap {
    type V = Map<Seq<char>, serde_json::Value>;

    closed spec fn view(&self) -> Map<Seq<char>, serde_json::Value> {
        pairs_view(self.pairs@)
    }
}

impl TraitMap {
    #[verifier::type_invariant]
    closed spec fn wf(&self) -> bool {
        unique_names(self.pairs@)
    }

    /// An empty map.
    pub fn new() -> (r: Self)
        ensures
            r@ == Map::<Seq<char>, serde_json::Value>::empty(),
    {
        let r = TraitMap { pairs: Vec::new() };
        proof {
            assert(r@ =~= Map::<Seq<char>, serde_json::Value>::empty());
        }
        r
    }

    /// Set the value of a trait, replacing any value it had.
    pub fn insert(&mut self, name: String, value: serde_json::Value)
        ensures
            final(self)@ == old(self)@.insert(name@, value),
    {
        proof {
            use_type_invariant(&*self);
        }
        let mut pairs: Vec<(String, serde_json::Value)> = Vec::new();
        core::mem::swap(&mut pairs, &mut self.pairs);
        let ghost before = pairs@;
        match find_name(&pairs, name.as_str()) {
            Some(i) => {
                let ghost x = (name, value);
                pairs.set(i, (name, value));
                proof {
                    lemma_pairs_view_update(before, i as int, x);
                }
            },
            None => {
                let ghost x = (name, value);
                pairs.push((name, value));
                proof {
                    lemma_pairs_view_push(before, x);
                }
            },
        }
        *self = TraitMap { pairs };
    }

    /// The value of a trait, if it is set.
    pub fn get(&self, name: &str) -> (r: Option<&serde_json::Value>)
        ensures
            self@.dom().contains(name@) ==> r == Some(&self@[name@]),
            !self@.dom().contains(name@) ==> r is None,
    {
        proof {
            use_type_invariant(self);
        }
        match find_name(&self.pairs, name) {
            Some(i) => {
                proof {
                    lemma_name_index(self.pairs@, i as int);
                }
                Some(&self.pairs[i].1)
            },
            None => None,
        }
    }

    /// The traits as name/value pairs, each name once, in no particular
    /// order.
    pub fn pairs(&self) -> (r: &Vec<(String, serde_json::Value)>)
        ensures
            pairs_view(r@) == self@,
            unique_names(r@),
    {
        proof {
            use_type_invariant(self);
        }
        &self.pairs
    }

    /// A copy of this map.
    pub fn duplicate(&self) -> (r: Self)
        ensures
            r@ == self@,
    {
        proof {
            use_type_invariant(self);
        }
        let mut out: Vec<(String, serde_json::Value)> = Vec::new();
        let mut i: usize = 0;
        while i < self.pairs.len()
            invariant
                i <= self.pairs@.len(),
                out@.len() == i,
                unique_names(self.pairs@),
                forall|q: int| 0 <= q < i ==> #[trigger] out@[q].0@ == self.pairs@[q].0@ && out@[q].1 == self.pairs@[q].1,
            decreases self.pairs@.len() - i,
        {
            let name = self.pairs[i].0.clone();
            let value = self.pairs[i].1.clone();
            out.push((name, value));
            i = i + 1;
        }
        proof {
            let s = self.pairs@;
            let o = out@;
            assert forall|a: int, b: int| 0 <= a < b < o.len() implies o[a].0@ != o[b].0@ by {
                assert(o[a].0@ == s[a].0@ && o[b].0@ == s[b].0@);
            }
            assert forall|k: Seq<char>| has_name(o, k) <==> has_name(s, k) by {
                if has_name(o, k) {
                    let j = choose|j: int| #![trigger o[j]] 0 <= j < o.len() && o[j].0@ == k;
                    assert(s[j].0@ == o[j].0@);
                }
                if has_name(s, k) {
                    let j = choose|j: int| #![trigger s[j]] 0 <= j < s.len() && s[j].0@ == k;
                    assert(s[j].0@ == o[j].0@);
                }
            }
            assert forall|k: Seq<char>| #[trigger] has_name(o, k) implies o[name_index(o, k)].1 == s[name_index(s, k)].1 by {
                let j = name_index(o, k);
                lemma_name_index(o, j);
                assert(s[j].0@ == o[j].0@);
                lemma_name_index(s, j);
            }
            assert(pairs_view(o) =~= pairs_view(s));
        }
        TraitMap { pairs: out }
    }
}

impl Clone for TraitMap {
    /// A copy of this map.
    fn clone(&self) -> (r: Self)
        ensures
            r@ == self@,
    {
        self.duplicate()
    }
}

impl Default for TraitMap {
    /// An empty map.
    fn default() -> (r: Self)
        ensures
            r@ == Map::<Seq<char>, serde_json::Value>::empty(),
    {
        TraitMap::new()
    }
}

/// The position of the pair named `name`, if there is one.
fn find_name(pairs: &Vec<(String, serde_json::Value)>, name: &str) -> (r: Option<usize>)
    ensures
        r matches Some(i) ==> i < pairs@.len() && pairs@[i as int].0@ == name@,
        r is None ==> !has_name(pairs@, name@),
{
    let mut i: usize = 0;
    while i < pairs.len()
        invariant
            i <= pairs@.len(),
            forall|q: int| 0 <= q < i ==> #[trigger] pairs@[q].0@ != name@,
        decreases pairs@.len() - i,
    {
        if str_eq(pairs[i].0.as_str(), name) {
            return Some(i);
        }
        i = i + 1;
    }
    None
}

/// A complete personality profile for an agent.
#[derive(Debug, Clone)]
pub struct PersonalityProfile {
    /// Unique identifier for this personality.
    pub id: PersonalityId,
    /// Human-readable name (e.g. `Enterprise Analyst`).
    pub name: String,
    /// Semantic version of this personality definition.
    pub version: String,
    /// Optional description.
    pub description: Option<String>,
    /// Communication style preferences.
    pub communication_style: CommunicationStyle,
    /// Decision-making tendencies.
    pub decision_tendencies: DecisionTendencies,
    /// Risk tolerance.
    pub risk_tolerance: RiskTolerance,
    /// Collaboration pattern.
    pub collaboration_pattern: CollaborationPattern,
    /// Escalation behavior.
    pub escalation_behavior: EscalationBehavior,
    /// Domain specialization hints (e.g. `finance`, `compliance`).
    pub domain_hints: Vec<String>,
    /// Response formatting preferences.
    pub response_formatting: ResponseFormatting,
    /// Custom traits for extension.
    pub custom_traits: TraitMap,
}

/// Whether two profiles hold the same values.
pub open spec fn same_profile(a: PersonalityProfile, b: PersonalityProfile) -> bool {
    &&& a.id == b.id
    &&& a.name@ == b.name@
    &&& a.version@ == b.version@
    &&& opt_view(a.description) == opt_view(b.description)
    &&& same_style(a.communication_style, b.communication_style)
    &&& a.decision_tendencies == b.decision_tendencies
    &&& a.risk_tolerance == b.risk_tolerance
    &&& a.collaboration_pattern == b.collaboration_pattern
    &&& same_escalation(a.escalation_behavior, b.escalation_behavior)
    &&& tag_texts(a.domain_hints@) == tag_texts(b.domain_hints@)
    &&& same_formatting(a.response_formatting, b.response_formatting)
    &&& a.custom_traits@ == b.custom_traits@
}

/// A partial profile merged on top of a base profile: only the traits it
/// sets replace the base's, and its custom traits are added.
#[derive(Debug, Clone)]
pub struct PersonalityOverlay {
    /// Override communication style.
    pub communication_style: Option<CommunicationStyle>,
    /// Override decision tendencies.
    pub decision_tendencies: Option<DecisionTendencies>,
    /// Override risk tolerance.
    pub risk_tolerance: Option<RiskTolerance>,
    /// Override collaboration pattern.
    pub collaboration_pattern: Option<CollaborationPattern>,
    /// Override escalation behavior.
    pub escalation_behavior: Option<EscalationBehavior>,
    /// Override domain hints.
    pub domain_hints: Option<Vec<String>>,
    /// Override response formatting.
    pub response_formatting: Option<ResponseFormatting>,
    /// Additional custom traits (merged additively).
    pub custom_traits: TraitMap,
}

impl Default for PersonalityOverlay {
    /// An overlay that changes nothing.
    fn default() -> (r: Self)
        ensures
            r.communication_style is None,
            r.decision_tendencies is None,
            r.risk_tolerance is None,
            r.collaboration_pattern is None,
            r.escalation_behavior is None,
            r.domain_hints is None,
            r.response_formatting is None,
            r.custom_traits@ == Map::<Seq<char>, serde_json::Value>::empty(),
    {
        PersonalityOverlay {
            communication_style: None,
            decision_tendencies: None,
            risk_tolerance: None,
            collaboration_pattern: None,
            escalation_behavior: None,
            domain_hints: None,
            response_formatting: None,
            custom_traits: TraitMap::new(),
        }
    }
}

/// The value the overlay sets, or the base value when it sets none.
pub open spec fn overridden<T>(overlay: Option<T>, base: T) -> T {
    match overlay {
        Some(v) => v,
        None => base,
    }
}

impl PersonalityProfile {
    /// A profile with the given name and version, a fresh identifier, and
    /// the default traits.
    pub fn new(name: &str, version: &str) -> (r: Self)
        ensures
            r.name@ == name@,
            r.version@ == version@,
            r.description is None,
            r.communication_style.tone@ == "professional"@,
            r.communication_style.verbosity == 3,
            r.communication_style.language@ == "en-US"@,
            !r.communication_style.use_jargon,
            r.decision_tendencies.thoroughness_bits == HALF_BITS,
            !r.decision_tendencies.consensus_seeking,
            r.decision_tendencies.innovation_bias_bits == THREE_TENTHS_BITS,
            r.risk_tolerance == RiskTolerance::Medium,
            r.collaboration_pattern == CollaborationPattern::Cooperative,
            r.escalation_behavior.trigger@ == "after_retry"@,
            r.escalation_behavior.max_retries_before_escalation == 2,
            r.escalation_behavior.include_full_context,
            r.domain_hints@.len() == 0,
            r.response_formatting.format@ == "markdown"@,
            !r.response_formatting.show_reasoning,
            !r.response_formatting.show_confidence,
            r.response_formatting.max_length_hint == 0,
            r.custom_traits@ == Map::<Seq<char>, serde_json::Value>::empty(),
    {
        PersonalityProfile {
            id: PersonalityId::new(),
            name: owned(name),
            version: owned(version),
            description: None,
            communication_style: CommunicationStyle::default(),
            decision_tendencies: DecisionTendencies::default(),
            risk_tolerance: RiskTolerance::default(),
            collaboration_pattern: CollaborationPattern::default(),
            escalation_behavior: EscalationBehavior::default(),
            domain_hints: Vec::new(),
            response_formatting: ResponseFormatting::default(),
            custom_traits: TraitMap::new(),
        }
    }

    /// A copy of this profile.
    pub fn duplicate(&self) -> (r: Self)
        ensures
            same_profile(r, *self),
    {
        PersonalityProfile {
            id: self.id,
            name: self.name.clone(),
            version: self.version.clone(),
            description: opt_string_clone(&self.description),
            communication_style: self.communication_style.duplicate(),
            decision_tendencies: self.decision_tendencies,
            risk_tolerance: self.risk_tolerance,
            collaboration_pattern: self.collaboration_pattern,
            escalation_behavior: self.escalation_behavior.duplicate(),
            domain_hints: copy_strings(&self.domain_hints),
            response_formatting: self.response_formatting.duplicate(),
            custom_traits: self.custom_traits.duplicate(),
        }
    }

    /// This profile with an overlay merged on top: each trait the overlay
    /// sets replaces this profile's, the others are inherited, and the
    /// overlay's custom traits are added, replacing those of the same name.
    pub fn merge_overlay(&self, overlay: &PersonalityOverlay) -> (r: PersonalityProfile)
        ensures
            r.id == self.id,
            r.name@ == self.name@,
            r.version@ == self.version@,
            opt_view(r.description) == opt_view(self.description),
            same_style(r.communication_style, overridden(overlay.communication_style, self.communication_style)),
            r.decision_tendencies == overridden(overlay.decision_tendencies, self.decision_tendencies),
            r.risk_tolerance == overridden(overlay.risk_tolerance, self.risk_tolerance),
            r.collaboration_pattern == overridden(overlay.collaboration_pattern, self.collaboration_pattern),
            same_escalation(r.escalation_behavior, overridden(overlay.escalation_behavior, self.escalation_behavior)),
            tag_texts(r.domain_hints@) == tag_texts(overridden(overlay.domain_hints, self.domain_hints)@),
            same_formatting(r.response_formatting, overridden(overlay.response_formatting, self.response_formatting)),
            r.custom_traits@ == self.custom_traits@.union_prefer_right(overlay.custom_traits@),
    {
        let mut merged = self.duplicate();
        match &overlay.communication_style {
            Some(style) => {
                merged.communication_style = style.duplicate();
            },
            None => {},
        }
        match overlay.decision_tendencies {
            Some(t) => {
                merged.decision_tendencies = t;
            },
            None => {},
        }
        match overlay.risk_tolerance {
            Some(risk) => {
                merged.risk_tolerance = risk;
            },
            None => {},
        }
        match overlay.collaboration_pattern {
            Some(c) => {
                merged.collaboration_pattern = c;
            },
            None => {},
        }
        match &overlay.escalation_behavior {
            Some(e) => {
                merged.escalation_behavior = e.duplicate();
            },
            None => {},
        }
        match &overlay.domain_hints {
            Some(h) => {
                merged.domain_hints = copy_strings(h);
            },
            None => {},
        }
        match &overlay.response_formatting {
            Some(f) => {
                merged.response_formatting = f.duplicate();
            },
            None => {},
        }
        merged.custom_traits = merge_traits(&self.custom_traits, &overlay.custom_traits);
        merged
    }
}

/// The traits of `base` with those of `added` set on top, replacing those of
/// the same name.
pub fn merge_traits(base: &TraitMap, added: &TraitMap) -> (r: TraitMap)
    ensures
        r@ == base@.union_prefer_right(added@),
{
    let mut merged = base.duplicate();
    let pairs = added.pairs();
    let mut i: usize = 0;
    proof {
        assert(pairs_view(pairs@.take(0)) =~= Map::<Seq<char>, serde_json::Value>::empty());
        assert(base@.union_prefer_right(Map::<Seq<char>, serde_json::Value>::empty()) =~= base@);
    }
    while i < pairs.len()
        invariant
            i <= pairs@.len(),
            unique_names(pairs@),
            merged@ == base@.union_prefer_right(pairs_view(pairs@.take(i as int))),
        decreases pairs@.len() - i,
    {
        let name = pairs[i].0.clone();
        let value = pairs[i].1.clone();
        merged.insert(name, value);
        proof {
            let pre = pairs@.take(i as int);
            let x = pairs@[i as int];
            assert(pairs@.take(i + 1) =~= pre.push(x));
            assert(unique_names(pre)) by {
                assert forall|a: int, b: int| 0 <= a < b < pre.len() implies pre[a].0@ != pre[b].0@ by {
                    assert(pre[a] == pairs@[a] && pre[b] == pairs@[b]);
                }
            }
            assert(!has_name(pre, x.0@)) by {
                if has_name(pre, x.0@) {
                    let j = choose|j: int| #![trigger pre[j]] 0 <= j < pre.len() && pre[j].0@ == x.0@;
                    assert(pairs@[j].0@ != pairs@[i as int].0@);
                }
            }
            lemma_pairs_view_push(pre, x);
            assert(base@.union_prefer_right(pairs_view(pre)).insert(x.0@, x.1) =~= base@.union_prefer_right(
                pairs_view(pre).insert(x.0@, x.1),
            ));
        }
        i = i + 1;
    }
    proof {
        assert(pairs@.take(pairs@.len() as int) =~= pairs@);
    }
    merged
}

/// Whether tolerance `a` accepts more risk than `b` in the declared order
/// `VeryLow`, `Low`, `Medium`, `High`, `VeryHigh`.
pub open spec fn riskier(a: RiskTolerance, b: RiskTolerance) -> bool {
    match (a, b) {
        (RiskTolerance::VeryHigh, RiskTolerance::High) => true,
        (RiskTolerance::VeryHigh, RiskTolerance::Medium) => true,
        (RiskTolerance::VeryHigh, RiskTolerance::Low) => true,
        (RiskTolerance::VeryHigh, RiskTolerance::VeryLow) => true,
        (RiskTolerance::High, RiskTolerance::Medium) => true,
        (RiskTolerance::High, RiskTolerance::Low) => true,
        (RiskTolerance::High, RiskTolerance::VeryLow) => true,
        (RiskTolerance::Medium, RiskTolerance::Low) => true,
        (RiskTolerance::Medium, RiskTolerance::VeryLow) => true,
        (RiskTolerance::Low, RiskTolerance::VeryLow) => true,
        _ => false,
    }
}

/// Risk tolerance levels rise in the declared order: one tolerance has the
/// higher level exactly when it accepts more risk.
pub proof fn lemma_risk_levels_rise(a: RiskTolerance, b: RiskTolerance)
    ensures
        riskier(a, b) <==> a.rank() > b.rank(),
        RiskTolerance::VeryLow.rank() < RiskTolerance::Low.rank(),
        RiskTolerance::Low.rank() < RiskTolerance::Medium.rank(),
        RiskTolerance::Medium.rank() < RiskTolerance::High.rank(),
        RiskTolerance::High.rank() < RiskTolerance::VeryHigh.rank(),
{
}

} // verus!
