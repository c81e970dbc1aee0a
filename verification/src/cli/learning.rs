//! How the `swarm learning` commands read their arguments: scopes,
//! categories, statuses and filters.

use vstd::prelude::*;
use crate::config::model::{LearningScopeKind, SwarmConfig};
use crate::learning::output::{category_key, category_named, parse_category, LearningCategory, LearningOutput, LearningStatus, output_scope_label};
use crate::learning::scope::{scope_key, LearningScope};
use crate::learning::store::{LearningLifecycleAction, LearningOutputFilter};
use crate::text::{chars_eq_str, lower_chars, lower_spec, owned, string_from_chars, trim_spec, trim_str};

verus! {

/// The name of a configured default scope kind.
pub open spec fn scope_kind_label(k: LearningScopeKind) -> Seq<char> {
    match k {
        LearningScopeKind::Agent => "agent"@,
        LearningScopeKind::Team => "team"@,
        LearningScopeKind::Tenant => "tenant"@,
        LearningScopeKind::Workflow => "workflow"@,
        LearningScopeKind::Global => "global"@,
    }
}

/// The name of a configured default scope kind.
pub fn scope_kind_name(scope: LearningScopeKind) -> (r: &'static str)
    ensures
        r@ == scope_kind_label(scope),
{
    proof {
        reveal_strlit("agent");
        reveal_strlit("team");
        reveal_strlit("tenant");
        reveal_strlit("workflow");
        reveal_strlit("global");
    }
    match scope {
        LearningScopeKind::Agent => "agent",
        LearningScopeKind::Team => "team",
        LearningScopeKind::Tenant => "tenant",
        LearningScopeKind::Workflow => "workflow",
        LearningScopeKind::Global => "global",
    }
}

/// The error for a scope that needs an identifier and got none.
pub open spec fn missing_scope_id(scope: Seq<char>) -> Seq<char> {
    "--scope-id is required when --scope "@ + scope + " is used"@
}

/// The scope a name and optional identifier select, as plain values, or
/// the error: the name is trimmed and lowercased (ASCII); every scope but
/// the global one needs an identifier.
pub open spec fn resolved_scope(name: Seq<char>, id: Option<Seq<char>>) -> Result<(int, Seq<char>), Seq<char>> {
    let n = lower_spec(trim_spec(name));
    if n == "agent"@ {
        match id {
            Some(i) => Ok((0, i)),
            None => Err(missing_scope_id("agent"@)),
        }
    } else if n == "team"@ {
        match id {
            Some(i) => Ok((1, i)),
            None => Err(missing_scope_id("team"@)),
        }
    } else if n == "tenant"@ {
        match id {
            Some(i) => Ok((2, i)),
            None => Err(missing_scope_id("tenant"@)),
        }
    } else if n == "workflow"@ {
        match id {
            Some(i) => Ok((3, i)),
            None => Err(missing_scope_id("workflow"@)),
        }
    } else if n == "global"@ {
        Ok((4, Seq::empty()))
    } else {
        Err("unsupported learning scope '"@ + n + "' (expected agent, team, tenant, workflow, or global)"@)
    }
}

/// The view of an optional text.
pub open spec fn opt_str_view(o: Option<&str>) -> Option<Seq<char>> {
    match o {
        Some(s) => Some(s@),
        None => None,
    }
}

/// The identifier a scope needs.
pub fn required_scope_id<'a>(scope: &str, scope_id: Option<&'a str>) -> (r: Result<&'a str, String>)
    ensures
        scope_id matches Some(i) ==> r == Ok::<&'a str, String>(i),
        scope_id is None ==> (r matches Err(e) && e@ == missing_scope_id(scope@)),
{
    match scope_id {
        Some(i) => Ok(i),
        None => {
            let mut e = owned("--scope-id is required when --scope ");
            e.append(scope);
            e.append(" is used");
            proof {
                reveal_strlit("--scope-id is required when --scope ");
                reveal_strlit(" is used");
            }
            Err(e)
        },
    }
}

/// The scope a command works on: the requested one, or the configured
/// default kind.
pub fn resolve_scope(requested_scope: Option<&str>, scope_id: Option<&str>, config: &SwarmConfig) -> (r: Result<LearningScope, String>)
    ensures
        ({
            let name = match requested_scope {
                Some(s) => s@,
                None => scope_kind_label(config.learning.default_scope),
            };
            match r {
                Ok(s) => resolved_scope(name, opt_str_view(scope_id)) == Ok::<(int, Seq<char>), Seq<char>>(scope_key(s)),
                Err(e) => resolved_scope(name, opt_str_view(scope_id)) == Err::<(int, Seq<char>), Seq<char>>(e@),
            }
        }),
{
    let name = match requested_scope {
        Some(s) => s,
        None => scope_kind_name(config.learning.default_scope),
    };
    let t = trim_str(name);
    let n = lower_chars(t.as_slice());
    proof {
        reveal_strlit("agent");
        reveal_strlit("team");
        reveal_strlit("tenant");
        reveal_strlit("workflow");
        reveal_strlit("global");
    }
    if chars_eq_str(n.as_slice(), "agent") {
        match required_scope_id("agent", scope_id) {
            Ok(i) => Ok(LearningScope::Agent { agent_id: owned(i) }),
            Err(e) => Err(e),
        }
    } else if chars_eq_str(n.as_slice(), "team") {
        match required_scope_id("team", scope_id) {
            Ok(i) => Ok(LearningScope::Team { team_id: owned(i) }),
            Err(e) => Err(e),
        }
    } else if chars_eq_str(n.as_slice(), "tenant") {
        match required_scope_id("tenant", scope_id) {
            Ok(i) => Ok(LearningScope::Tenant { tenant_id: owned(i) }),
            Err(e) => Err(e),
        }
    } else if chars_eq_str(n.as_slice(), "workflow") {
        match required_scope_id("workflow", scope_id) {
            Ok(i) => Ok(LearningScope::Workflow { workflow_id: owned(i) }),
            Err(e) => Err(e),
        }
    } else if chars_eq_str(n.as_slice(), "global") {
        Ok(LearningScope::Global)
    } else {
        let mut e = owned("unsupported learning scope '");
        let other = string_from_chars(n.as_slice());
        e.append(other.as_str());
        e.append("' (expected agent, team, tenant, workflow, or global)");
        proof {
            reveal_strlit("unsupported learning scope '");
            reveal_strlit("' (expected agent, team, tenant, workflow, or global)");
        }
        Err(e)
    }
}

/// The scope label of an output, such as `agent:agent-1`.
pub fn learning_scope_label(output: &LearningOutput) -> (r: String)
    ensures
        r@ == output_scope_label(output.scope),
{
    output.scope_label()
}

/// The error for a category the command does not accept.
pub open spec fn bad_category_reason(label: Seq<char>, error: Seq<char>) -> Seq<char> {
    "unsupported learning category '"@ + label + "': "@ + error
        + " (expected a built-in label such as plan_template or a custom snake_case value)"@
}

/// Parse a category argument.
pub fn parse_learning_category(label: &str) -> (r: Result<LearningCategory, String>)
    ensures
        lower_spec(trim_spec(label@)).len() == 0 <==> r is Err,
        r matches Ok(c) ==> category_key(c) == category_named(lower_spec(trim_spec(label@))),
        r matches Err(e) ==> e@ == bad_category_reason(label@, "learning category cannot be empty"@),
{
    match parse_category(label) {
        Ok(c) => Ok(c),
        Err(error) => {
            let mut e = owned("unsupported learning category '");
            e.append(label);
            e.append("': ");
            e.append(error.as_str());
            e.append(" (expected a built-in label such as plan_template or a custom snake_case value)");
            proof {
                reveal_strlit("unsupported learning category '");
                reveal_strlit("': ");
                reveal_strlit(" (expected a built-in label such as plan_template or a custom snake_case value)");
            }
            Err(e)
        },
    }
}

/// The status a normalized label names, if any.
pub open spec fn status_named(n: Seq<char>) -> Option<LearningStatus> {
    if n == "pending"@ {
        Some(LearningStatus::Pending)
    } else if n == "pending_approval"@ {
        Some(LearningStatus::PendingApproval)
    } else if n == "applied"@ {
        Some(LearningStatus::Applied)
    } else if n == "rejected"@ {
        Some(LearningStatus::Rejected)
    } else if n == "rolled_back"@ {
        Some(LearningStatus::RolledBack)
    } else {
        None
    }
}

/// Parse a status argument: the label is trimmed and lowercased (ASCII)
/// and must name a status.
pub fn parse_learning_status(label: &str) -> (r: Result<LearningStatus, String>)
    ensures
        status_named(lower_spec(trim_spec(label@))) matches Some(s) ==> r == Ok::<LearningStatus, String>(s),
        status_named(lower_spec(trim_spec(label@))) is None ==> (r matches Err(e) && e@ == "unsupported learning status '"@
            + lower_spec(trim_spec(label@)) + "' (expected pending, pending_approval, applied, rejected, or rolled_back)"@),
{
    let t = trim_str(label);
    let n = lower_chars(t.as_slice());
    proof {
        reveal_strlit("pending");
        reveal_strlit("pending_approval");
        reveal_strlit("applied");
        reveal_strlit("rejected");
        reveal_strlit("rolled_back");
    }
    if chars_eq_str(n.as_slice(), "pending") {
        Ok(LearningStatus::Pending)
    } else if chars_eq_str(n.as_slice(), "pending_approval") {
        Ok(LearningStatus::PendingApproval)
    } else if chars_eq_str(n.as_slice(), "applied") {
        Ok(LearningStatus::Applied)
    } else if chars_eq_str(n.as_slice(), "rejected") {
        Ok(LearningStatus::Rejected)
    } else if chars_eq_str(n.as_slice(), "rolled_back") {
        Ok(LearningStatus::RolledBack)
    } else {
        let mut e = owned("unsupported learning status '");
        let other = string_from_chars(n.as_slice());
        e.append(other.as_str());
        e.append("' (expected pending, pending_approval, applied, rejected, or rolled_back)");
        proof {
            reveal_strlit("unsupported learning status '");
            reveal_strlit("' (expected pending, pending_approval, applied, rejected, or rolled_back)");
        }
        Err(e)
    }
}

/// The filter of optional category and status arguments; the category is
/// read first, so its error wins.
pub fn learning_output_filter(category: Option<&str>, status: Option<&str>) -> (r: Result<LearningOutputFilter, String>)
    ensures
        category is Some && lower_spec(trim_spec(category->Some_0@)).len() == 0 ==> (r matches Err(e) && e@
            == bad_category_reason(category->Some_0@, "learning category cannot be empty"@)),
        !(category matches Some(c) && lower_spec(trim_spec(c@)).len() == 0) && (status matches Some(s)
            && status_named(lower_spec(trim_spec(s@))) is None) ==> (r matches Err(e) && e@ == "unsupported learning status '"@
            + lower_spec(trim_spec(status->Some_0@)) + "' (expected pending, pending_approval, applied, rejected, or rolled_back)"@),
        r matches Ok(f) ==> (match category {
            Some(c) => f.category matches Some(k) && category_key(k) == category_named(lower_spec(trim_spec(c@))),
            None => f.category is None,
        }) && (match status {
            Some(s) => f.status == status_named(lower_spec(trim_spec(s@))),
            None => f.status is None,
        }),
        r is Err <==> (category matches Some(c) && lower_spec(trim_spec(c@)).len() == 0) || (status matches Some(s)
            && status_named(lower_spec(trim_spec(s@))) is None),
{
    let category = match category {
        Some(c) => match parse_learning_category(c) {
            Ok(v) => Some(v),
            Err(e) => {
                return Err(e);
            },
        },
        None => None,
    };
    let status = match status {
        Some(s) => match parse_learning_status(s) {
            Ok(v) => Some(v),
            Err(e) => {
                return Err(e);
            },
        },
        None => None,
    };
    Ok(LearningOutputFilter { category, status })
}

/// The filter of a batch action: the arguments' filter, with the status
/// the action applies to by default when none is given.
pub fn batch_action_filter(category: Option<&str>, status: Option<&str>, action: LearningLifecycleAction) -> (r: Result<LearningOutputFilter, String>)
    ensures
        r is Err <==> (category matches Some(c) && lower_spec(trim_spec(c@)).len() == 0) || (status matches Some(s)
            && status_named(lower_spec(trim_spec(s@))) is None),
        r matches Ok(f) ==> (match category {
            Some(c) => f.category matches Some(k) && category_key(k) == category_named(lower_spec(trim_spec(c@))),
            None => f.category is None,
        }) && (match status {
            Some(s) => f.status == status_named(lower_spec(trim_spec(s@))),
            None => f.status == Some(default_status_spec(action)),
        }),
{
    match learning_output_filter(category, status) {
        Ok(mut f) => {
            if f.status.is_none() {
                f.status = Some(default_status_for_action(action));
            }
            Ok(f)
        },
        Err(e) => Err(e),
    }
}

/// The filter of the `pending` command: outputs awaiting approval, of the
/// given category when there is one.
pub fn pending_filter(category: Option<&str>) -> (r: Result<LearningOutputFilter, String>)
    ensures
        r is Err <==> (category matches Some(c) && lower_spec(trim_spec(c@)).len() == 0),
        r matches Ok(f) ==> f.status == Some(LearningStatus::PendingApproval) && (match category {
            Some(c) => f.category matches Some(k) && category_key(k) == category_named(lower_spec(trim_spec(c@))),
            None => f.category is None,
        }),
{
    let category = match category {
        Some(c) => match parse_learning_category(c) {
            Ok(v) => Some(v),
            Err(e) => {
                return Err(e);
            },
        },
        None => None,
    };
    Ok(LearningOutputFilter { category, status: Some(LearningStatus::PendingApproval) })
}

/// The status a batch action applies to by default.
pub open spec fn default_status_spec(action: LearningLifecycleAction) -> LearningStatus {
    match action {
        LearningLifecycleAction::Approve | LearningLifecycleAction::Reject => LearningStatus::PendingApproval,
        LearningLifecycleAction::Rollback => LearningStatus::Applied,
    }
}

/// The status a batch action applies to by default: approval and rejection
/// take outputs awaiting approval, rollback takes applied ones.
pub fn default_status_for_action(action: LearningLifecycleAction) -> (r: LearningStatus)
    ensures
        r == default_status_spec(action),
{
    match action {
        LearningLifecycleAction::Approve | LearningLifecycleAction::Reject => LearningStatus::PendingApproval,
        LearningLifecycleAction::Rollback => LearningStatus::Applied,
    }
}

/// The verb that reports a batch action.
pub fn format_batch_action_verb(action: LearningLifecycleAction) -> (r: &'static str)
    ensures
        action == LearningLifecycleAction::Approve ==> r@ == "Approved"@,
        action == LearningLifecycleAction::Reject ==> r@ == "Rejected"@,
        action == LearningLifecycleAction::Rollback ==> r@ == "Rolled back"@,
{
    proof {
        reveal_strlit("Approved");
        reveal_strlit("Rejected");
        reveal_strlit("Rolled back");
    }
    match action {
        LearningLifecycleAction::Approve => "Approved",
        LearningLifecycleAction::Reject => "Rejected",
        LearningLifecycleAction::Rollback => "Rolled back",
    }
}

} // verus!
