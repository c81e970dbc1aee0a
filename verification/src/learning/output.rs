//! Learning outputs: what strategies produce, with their review lifecycle.

use vstd::prelude::*;
use crate::identity::LearningRuleId;
use crate::json::json_null;
use crate::learning::scope::{scope_key, LearningScope};
use crate::text::{chars_eq_str, lower_chars, lower_spec, opt_view, owned, string_from_chars, trim_spec, trim_str};
use crate::types::{now, Timestamp};

verus! {

/// The category of a learning output.
#[derive(Debug, Clone, PartialEq, Eq)]
pub enum LearningCategory {
    /// Preference ranking update.
    PreferenceAdaptation,
    /// Extracted pattern or workflow template.
    PatternExtraction,
    /// Feedback-based quality adjustment.
    FeedbackIncorporation,
    /// Reusable plan template.
    PlanTemplate,
    /// Heuristic score update.
    ScoringImprovement,
    /// Organization-specific knowledge fact.
    KnowledgeAccumulation,
    /// Suggested configuration change (requires approval).
    ConfigurationEvolution,
    /// Training data export (requires approval).
    FineTuningData,
    /// Custom category.
    Custom(String),
}

/// The stable label of a category; a custom category's label is its text.
pub open spec fn category_label(c: LearningCategory) -> Seq<char> {
    match c {
        LearningCategory::PreferenceAdaptation => "preference_adaptation"@,
        LearningCategory::PatternExtraction => "pattern_extraction"@,
        LearningCategory::FeedbackIncorporation => "feedback_incorporation"@,
        LearningCategory::PlanTemplate => "plan_template"@,
        LearningCategory::ScoringImprovement => "scoring_improvement"@,
        LearningCategory::KnowledgeAccumulation => "knowledge_accumulation"@,
        LearningCategory::ConfigurationEvolution => "configuration_evolution"@,
        LearningCategory::FineTuningData => "fine_tuning_data"@,
        LearningCategory::Custom(v) => v@,
    }
}

/// A category as plain values: the variant's position and, for a custom
/// category, its text.
pub open spec fn category_key(c: LearningCategory) -> (int, Seq<char>) {
    match c {
        LearningCategory::PreferenceAdaptation => (0, Seq::empty()),
        LearningCategory::PatternExtraction => (1, Seq::empty()),
        LearningCategory::FeedbackIncorporation => (2, Seq::empty()),
        LearningCategory::PlanTemplate => (3, Seq::empty()),
        LearningCategory::ScoringImprovement => (4, Seq::empty()),
        LearningCategory::KnowledgeAccumulation => (5, Seq::empty()),
        LearningCategory::ConfigurationEvolution => (6, Seq::empty()),
        LearningCategory::FineTuningData => (7, Seq::empty()),
        LearningCategory::Custom(v) => (8, v@),
    }
}

/// The category a normalized, non-empty text names: a built-in category
/// for its label, else a custom category holding the text.
pub open spec fn category_named(n: Seq<char>) -> (int, Seq<char>) {
    if n == "preference_adaptation"@ {
        (0, Seq::empty())
    } else if n == "pattern_extraction"@ {
        (1, Seq::empty())
    } else if n == "feedback_incorporation"@ {
        (2, Seq::empty())
    } else if n == "plan_template"@ {
        (3, Seq::empty())
    } else if n == "scoring_improvement"@ {
        (4, Seq::empty())
    } else if n == "knowledge_accumulation"@ {
        (5, Seq::empty())
    } else if n == "configuration_evolution"@ {
        (6, Seq::empty())
    } else if n == "fine_tuning_data"@ {
        (7, Seq::empty())
    } else {
        (8, n)
    }
}

/// Whether a text is the label of a built-in category.
pub open spec fn is_builtin_label(v: Seq<char>) -> bool {
    exists|b: LearningCategory| !(b is Custom) && #[trigger] category_label(b) == v
}

/// A category's label names that category again: every built-in label,
/// and every custom text that is not a built-in label.
pub proof fn lemma_category_label_names_it(c: LearningCategory)
    requires
        c is Custom ==> !is_builtin_label(category_label(c)),
    ensures
        category_named(category_label(c)) == category_key(c),
{
    reveal_strlit("preference_adaptation");
    reveal_strlit("pattern_extraction");
    reveal_strlit("feedback_incorporation");
    reveal_strlit("plan_template");
    reveal_strlit("scoring_improvement");
    reveal_strlit("knowledge_accumulation");
    reveal_strlit("configuration_evolution");
    reveal_strlit("fine_tuning_data");
    assert("preference_adaptation"@.len() == 21);
    assert("pattern_extraction"@.len() == 18);
    assert("feedback_incorporation"@.len() == 22);
    assert("plan_template"@.len() == 13);
    assert("scoring_improvement"@.len() == 19);
    assert("knowledge_accumulation"@.len() == 22);
    assert("configuration_evolution"@.len() == 23);
    assert("fine_tuning_data"@.len() == 16);
    assert("feedback_incorporation"@[0] != "knowledge_accumulation"@[0]);
    if c is Custom {
        let v = category_label(c);
        assert(category_label(LearningCategory::PreferenceAdaptation) != v);
        assert(category_label(LearningCategory::PatternExtraction) != v);
        assert(category_label(LearningCategory::FeedbackIncorporation) != v);
        assert(category_label(LearningCategory::PlanTemplate) != v);
        assert(category_label(LearningCategory::ScoringImprovement) != v);
        assert(category_label(LearningCategory::KnowledgeAccumulation) != v);
        assert(category_label(LearningCategory::ConfigurationEvolution) != v);
        assert(category_label(LearningCategory::FineTuningData) != v);
    }
}

impl LearningCategory {
    /// The stable label, for CLI output and metrics.
    pub fn label(&self) -> (r: &str)
        ensures
            r@ == category_label(*self),
    {
        proof {
            reveal_strlit("preference_adaptation");
            reveal_strlit("pattern_extraction");
            reveal_strlit("feedback_incorporation");
            reveal_strlit("plan_template");
            reveal_strlit("scoring_improvement");
            reveal_strlit("knowledge_accumulation");
            reveal_strlit("configuration_evolution");
            reveal_strlit("fine_tuning_data");
        }
        match self {
            LearningCategory::PreferenceAdaptation => "preference_adaptation",
            LearningCategory::PatternExtraction => "pattern_extraction",
            LearningCategory::FeedbackIncorporation => "feedback_incorporation",
            LearningCategory::PlanTemplate => "plan_template",
            LearningCategory::ScoringImprovement => "scoring_improvement",
            LearningCategory::KnowledgeAccumulation => "knowledge_accumulation",
            LearningCategory::ConfigurationEvolution => "configuration_evolution",
            LearningCategory::FineTuningData => "fine_tuning_data",
            LearningCategory::Custom(value) => value.as_str(),
        }
    }

    /// Whether two categories are the same (a custom category by its text).
    pub fn same_as(&self, other: &LearningCategory) -> (r: bool)
        ensures
            r == (category_key(*self) == category_key(*other)),
    {
        match (self, other) {
            (LearningCategory::PreferenceAdaptation, LearningCategory::PreferenceAdaptation) => true,
            (LearningCategory::PatternExtraction, LearningCategory::PatternExtraction) => true,
            (LearningCategory::FeedbackIncorporation, LearningCategory::FeedbackIncorporation) => true,
            (LearningCategory::PlanTemplate, LearningCategory::PlanTemplate) => true,
            (LearningCategory::ScoringImprovement, LearningCategory::ScoringImprovement) => true,
            (LearningCategory::KnowledgeAccumulation, LearningCategory::KnowledgeAccumulation) => true,
            (LearningCategory::ConfigurationEvolution, LearningCategory::ConfigurationEvolution) => true,
            (LearningCategory::FineTuningData, LearningCategory::FineTuningData) => true,
            (LearningCategory::Custom(a), LearningCategory::Custom(b)) => crate::text::str_eq(a.as_str(), b.as_str()),
            _ => false,
        }
    }

    /// A copy of this category.
    pub fn duplicate(&self) -> (r: LearningCategory)
        ensures
            category_key(r) == category_key(*self),
    {
        match self {
            LearningCategory::PreferenceAdaptation => LearningCategory::PreferenceAdaptation,
            LearningCategory::PatternExtraction => LearningCategory::PatternExtraction,
            LearningCategory::FeedbackIncorporation => LearningCategory::FeedbackIncorporation,
            LearningCategory::PlanTemplate => LearningCategory::PlanTemplate,
            LearningCategory::ScoringImprovement => LearningCategory::ScoringImprovement,
            LearningCategory::KnowledgeAccumulation => LearningCategory::KnowledgeAccumulation,
            LearningCategory::ConfigurationEvolution => LearningCategory::ConfigurationEvolution,
            LearningCategory::FineTuningData => LearningCategory::FineTuningData,
            LearningCategory::Custom(value) => LearningCategory::Custom(value.clone()),
        }
    }
}

/// Parse a category: the text is trimmed and lowercased (ASCII); a built-in
/// label names its category, any other non-empty text a custom category
/// holding it. Empty text is refused.
pub fn parse_category(value: &str) -> (r: Result<LearningCategory, String>)
    ensures
        lower_spec(trim_spec(value@)).len() == 0 <==> r is Err,
        r matches Err(e) ==> e@ == "learning category cannot be empty"@,
        r matches Ok(c) ==> category_key(c) == category_named(lower_spec(trim_spec(value@))),
{
    let trimmed = trim_str(value);
    let n = lower_chars(trimmed.as_slice());
    proof {
        reveal_strlit("preference_adaptation");
        reveal_strlit("pattern_extraction");
        reveal_strlit("feedback_incorporation");
        reveal_strlit("plan_template");
        reveal_strlit("scoring_improvement");
        reveal_strlit("knowledge_accumulation");
        reveal_strlit("configuration_evolution");
        reveal_strlit("fine_tuning_data");
        reveal_strlit("learning category cannot be empty");
    }
    if chars_eq_str(n.as_slice(), "preference_adaptation") {
        Ok(LearningCategory::PreferenceAdaptation)
    } else if chars_eq_str(n.as_slice(), "pattern_extraction") {
        Ok(LearningCategory::PatternExtraction)
    } else if chars_eq_str(n.as_slice(), "feedback_incorporation") {
        Ok(LearningCategory::FeedbackIncorporation)
    } else if chars_eq_str(n.as_slice(), "plan_template") {
        Ok(LearningCategory::PlanTemplate)
    } else if chars_eq_str(n.as_slice(), "scoring_improvement") {
        Ok(LearningCategory::ScoringImprovement)
    } else if chars_eq_str(n.as_slice(), "knowledge_accumulation") {
        Ok(LearningCategory::KnowledgeAccumulation)
    } else if chars_eq_str(n.as_slice(), "configuration_evolution") {
        Ok(LearningCategory::ConfigurationEvolution)
    } else if chars_eq_str(n.as_slice(), "fine_tuning_data") {
        Ok(LearningCategory::FineTuningData)
    } else if n.len() == 0 {
        Err(owned("learning category cannot be empty"))
    } else {
        Ok(LearningCategory::Custom(string_from_chars(n.as_slice())))
    }
}

impl core::str::FromStr for LearningCategory {
    type Err = String;

    fn from_str(value: &str) -> Result<Self, Self::Err> {
        parse_category(value)
    }
}

/// The lifecycle status of a learning output.
#[derive(Debug, Clone, Copy, PartialEq, Eq, Structural)]
pub enum LearningStatus {
    /// Produced but not yet processed.
    Pending,
    /// Waiting for human approval.
    PendingApproval,
    /// Approved and applied.
    Applied,
    /// Rejected at review.
    Rejected,
    /// Applied, then rolled back.
    RolledBack,
}

/// The metrics label of a status.
pub open spec fn status_label(s: LearningStatus) -> Seq<char> {
    match s {
        LearningStatus::Pending => "pending"@,
        LearningStatus::PendingApproval => "pending_approval"@,
        LearningStatus::Applied => "applied"@,
        LearningStatus::Rejected => "rejected"@,
        LearningStatus::RolledBack => "rolled_back"@,
    }
}

impl LearningStatus {
    /// Whether no further transition is expected: rejected or rolled back.
    pub fn is_terminal(&self) -> (r: bool)
        ensures
            r == (*self is Rejected || *self is RolledBack),
    {
        match self {
            LearningStatus::Rejected | LearningStatus::RolledBack => true,
            _ => false,
        }
    }

    /// A short label for metrics.
    pub fn label(&self) -> (r: &'static str)
        ensures
            r@ == status_label(*self),
    {
        proof {
            reveal_strlit("pending");
            reveal_strlit("pending_approval");
            reveal_strlit("applied");
            reveal_strlit("rejected");
            reveal_strlit("rolled_back");
        }
        match self {
            LearningStatus::Pending => "pending",
            LearningStatus::PendingApproval => "pending_approval",
            LearningStatus::Applied => "applied",
            LearningStatus::Rejected => "rejected",
            LearningStatus::RolledBack => "rolled_back",
        }
    }
}

/// A single learning output produced by a strategy.
#[derive(Debug, Clone)]
pub struct LearningOutput {
    /// Unique identifier.
    pub id: LearningRuleId,
    /// The learning category.
    pub category: LearningCategory,
    /// Human-readable description of what was learned.
    pub description: String,
    /// The primary learning scope this output belongs to.
    pub scope: LearningScope,
    /// The agent this learning applies to (if agent-scoped).
    pub agent_id: Option<String>,
    /// The tenant this learning belongs to.
    pub tenant_id: Option<String>,
    /// The full context used to derive this output (for review).
    pub context: serde_json::Value,
    /// The learning delta (what changed or should change).
    pub delta: serde_json::Value,
    /// Whether human approval is required before this is applied.
    pub requires_approval: bool,
    /// Current status.
    pub status: LearningStatus,
    /// When this output was produced.
    pub created_at: Timestamp,
    /// When this output was applied (if it was).
    pub applied_at: Option<Timestamp>,
}

/// Whether two outputs hold the same values.
pub open spec fn same_output(a: LearningOutput, b: LearningOutput) -> bool {
    &&& a.id == b.id
    &&& category_key(a.category) == category_key(b.category)
    &&& a.description@ == b.description@
    &&& scope_key(a.scope) == scope_key(b.scope)
    &&& opt_view(a.agent_id) == opt_view(b.agent_id)
    &&& opt_view(a.tenant_id) == opt_view(b.tenant_id)
    &&& a.context == b.context
    &&& a.delta == b.delta
    &&& a.requires_approval == b.requires_approval
    &&& a.status == b.status
    &&& a.created_at == b.created_at
    &&& a.applied_at == b.applied_at
}

/// The scope label of an output: the variant's label, a colon and the
/// identifier; `global` for the global scope.
pub open spec fn output_scope_label(s: LearningScope) -> Seq<char> {
    match s {
        LearningScope::Agent { agent_id } => "agent:"@ + agent_id@,
        LearningScope::Team { team_id } => "team:"@ + team_id@,
        LearningScope::Tenant { tenant_id } => "tenant:"@ + tenant_id@,
        LearningScope::Workflow { workflow_id } => "workflow:"@ + workflow_id@,
        LearningScope::Global => "global"@,
    }
}

impl LearningOutput {
    /// A new output applied without approval: global scope, `Pending`, no
    /// context (JSON null), created now.
    pub fn auto(category: LearningCategory, description: &str, delta: serde_json::Value) -> (r: Self)
        ensures
            r.category == category,
            r.description@ == description@,
            r.scope == LearningScope::Global,
            r.agent_id is None,
            r.tenant_id is None,
            r.delta == delta,
            !r.requires_approval,
            r.status == LearningStatus::Pending,
            r.applied_at is None,
    {
        LearningOutput {
            id: LearningRuleId::new(),
            category,
            description: owned(description),
            scope: LearningScope::Global,
            agent_id: None,
            tenant_id: None,
            context: json_null(),
            delta,
            requires_approval: false,
            status: LearningStatus::Pending,
            created_at: now(),
            applied_at: None,
        }
    }

    /// A new output that requires human approval: global scope,
    /// `PendingApproval`, created now.
    pub fn requires_review(
        category: LearningCategory,
        description: &str,
        delta: serde_json::Value,
        context: serde_json::Value,
    ) -> (r: Self)
        ensures
            r.category == category,
            r.description@ == description@,
            r.scope == LearningScope::Global,
            r.agent_id is None,
            r.tenant_id is None,
            r.context == context,
            r.delta == delta,
            r.requires_approval,
            r.status == LearningStatus::PendingApproval,
            r.applied_at is None,
    {
        LearningOutput {
            id: LearningRuleId::new(),
            category,
            description: owned(description),
            scope: LearningScope::Global,
            agent_id: None,
            tenant_id: None,
            context,
            delta,
            requires_approval: true,
            status: LearningStatus::PendingApproval,
            created_at: now(),
            applied_at: None,
        }
    }

    /// Set the primary scope of this output.
    pub fn set_scope(&mut self, scope: LearningScope)
        ensures
            *final(self) == (LearningOutput { scope, ..*old(self) }),
    {
        self.scope = scope;
    }

    /// The stable human-readable scope label, such as `workflow:intake`.
    pub fn scope_label(&self) -> (r: String)
        ensures
            r@ == output_scope_label(self.scope),
    {
        proof {
            reveal_strlit("agent:");
            reveal_strlit("team:");
            reveal_strlit("tenant:");
            reveal_strlit("workflow:");
            reveal_strlit("global");
        }
        let (prefix, id): (&str, &str) = match &self.scope {
            LearningScope::Agent { agent_id } => ("agent:", agent_id.as_str()),
            LearningScope::Team { team_id } => ("team:", team_id.as_str()),
            LearningScope::Tenant { tenant_id } => ("tenant:", tenant_id.as_str()),
            LearningScope::Workflow { workflow_id } => ("workflow:", workflow_id.as_str()),
            LearningScope::Global => {
                return owned("global");
            },
        };
        let mut s = owned(prefix);
        s.append(id);
        s
    }

    /// A copy of this output.
    pub fn duplicate(&self) -> (r: LearningOutput)
        ensures
            same_output(r, *self),
    {
        LearningOutput {
            id: self.id,
            category: self.category.duplicate(),
            description: self.description.clone(),
            scope: self.scope.duplicate(),
            agent_id: crate::text::opt_string_clone(&self.agent_id),
            tenant_id: crate::text::opt_string_clone(&self.tenant_id),
            context: self.context.clone(),
            delta: self.delta.clone(),
            requires_approval: self.requires_approval,
            status: self.status,
            created_at: self.created_at,
            applied_at: self.applied_at,
        }
    }
}

/// The result of applying a learning output.
#[derive(Debug, Clone)]
pub struct LearningResult {
    /// The learning output that was applied.
    pub output_id: LearningRuleId,
    /// Whether the application succeeded.
    pub success: bool,
    /// A message describing the result.
    pub message: String,
}

} // verus!
