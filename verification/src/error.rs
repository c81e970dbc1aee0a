//! The structured error model shared by every module.

use vstd::prelude::*;
use crate::identity::{uuid_hyphenated, AgentId, PolicyId, TaskId};
use crate::text::{decimal_spec, decimal_text, owned};

verus! {

/// All structured errors that can occur within the framework.
#[derive(Debug)]
pub enum SwarmError {
    /// An agent with the given ID was not found in the registry.
    AgentNotFound { id: AgentId },
    /// The agent is in a state that does not allow the requested operation.
    AgentInvalidState { id: AgentId, reason: String },
    /// The agent does not possess the required capability.
    AgentMissingCapability { id: AgentId, capability: String },
    /// The agent's resource limits were exceeded.
    AgentResourceExceeded { id: AgentId, resource: String },
    /// A task with the given ID was not found.
    TaskNotFound { id: TaskId },
    /// The task specification is invalid or malformed.
    InvalidTaskSpec { reason: String },
    /// The task timed out before completing.
    TaskTimeout { id: TaskId, elapsed_ms: u64 },
    /// The task failed with an agent-reported error.
    TaskFailed { id: TaskId, reason: String },
    /// A policy evaluation denied the requested action.
    PolicyViolation { policy_id: PolicyId, action: String, reason: String },
    /// The policy with the given ID could not be found.
    PolicyNotFound { id: PolicyId },
    /// The subject does not have the required permission.
    PermissionDenied { subject: String, permission: String, resource: String },
    /// A plugin failed to initialize.
    PluginInitFailed { name: String, reason: String },
    /// A plugin operation returned an error.
    PluginOperationFailed { name: String, reason: String },
    /// A plugin version is incompatible with the host framework version.
    PluginVersionMismatch { name: String, plugin_version: String, host_version: String },
    /// A required configuration value is missing.
    ConfigMissing { key: String },
    /// A configuration value failed validation.
    ConfigInvalid { key: String, reason: String },
    /// A channel send/receive operation failed.
    ChannelError { reason: String },
    /// An I/O error occurred.
    Io(std::io::Error),
    /// A serialization or deserialization error occurred.
    Serialization(serde_json::Error),
    /// An unexpected internal error occurred.
    Internal { reason: String },
}

/// The primary result type used throughout the framework.
pub type SwarmResult<T> = Result<T, SwarmError>;

impl SwarmError {
    /// Returns `true` if this error is a transient failure that may succeed on
    /// retry: a task timeout or a channel error.
    pub fn is_retryable(&self) -> (r: bool)
        ensures
            r == (self is TaskTimeout || self is ChannelError),
    {
        match self {
            SwarmError::TaskTimeout { .. } | SwarmError::ChannelError { .. } => true,
            _ => false,
        }
    }

    /// Returns `true` if this error is a security or policy violation that
    /// should never be retried.
    pub fn is_security_error(&self) -> (r: bool)
        ensures
            r == (self is PolicyViolation || self is PermissionDenied),
    {
        match self {
            SwarmError::PolicyViolation { .. } | SwarmError::PermissionDenied { .. } => true,
            _ => false,
        }
    }
}

/// A retryable error is never a security error.
pub proof fn lemma_retryable_is_not_security(e: SwarmError)
    requires
        e is TaskTimeout || e is ChannelError,
    ensures
        !(e is PolicyViolation || e is PermissionDenied),
{
}

/// The text of an I/O error (`Display` of `std::io::Error`). It depends on
/// the operating system's messages; nothing is claimed of it.
#[verifier::external_body]
fn io_error_text(e: &std::io::Error) -> (r: String) {
    e.to_string()
}

/// The text of a JSON error (`Display` of `serde_json::Error`). The error is
/// opaque here; nothing is claimed of its text.
#[verifier::external_body]
fn json_error_text(e: &serde_json::Error) -> (r: String) {
    e.to_string()
}

/// The message of an error, for every variant but `Io` and `Serialization`,
/// whose messages embed the text of the outside error.
pub open spec fn error_message(e: SwarmError) -> Seq<char> {
    match e {
        SwarmError::AgentNotFound { id } => "agent not found: "@ + uuid_hyphenated(id@),
        SwarmError::AgentInvalidState { id, reason } => "agent "@ + uuid_hyphenated(id@)
            + " is in an invalid state for this operation: "@ + reason@,
        SwarmError::AgentMissingCapability { id, capability } => "agent "@ + uuid_hyphenated(id@)
            + " lacks capability '"@ + capability@ + "'"@,
        SwarmError::AgentResourceExceeded { id, resource } => "agent "@ + uuid_hyphenated(id@)
            + " exceeded resource limit: "@ + resource@,
        SwarmError::TaskNotFound { id } => "task not found: "@ + uuid_hyphenated(id@),
        SwarmError::InvalidTaskSpec { reason } => "invalid task specification: "@ + reason@,
        SwarmError::TaskTimeout { id, elapsed_ms } => "task "@ + uuid_hyphenated(id@) + " timed out after "@
            + decimal_spec(elapsed_ms as nat) + "ms"@,
        SwarmError::TaskFailed { id, reason } => "task "@ + uuid_hyphenated(id@) + " failed: "@ + reason@,
        SwarmError::PolicyViolation { policy_id, action, reason } => "policy "@ + uuid_hyphenated(policy_id@)
            + " denied action '"@ + action@ + "': "@ + reason@,
        SwarmError::PolicyNotFound { id } => "policy not found: "@ + uuid_hyphenated(id@),
        SwarmError::PermissionDenied { subject, permission, resource } => "permission denied: subject '"@
            + subject@ + "' lacks '"@ + permission@ + "' on '"@ + resource@ + "'"@,
        SwarmError::PluginInitFailed { name, reason } => "plugin '"@ + name@ + "' failed to initialize: "@
            + reason@,
        SwarmError::PluginOperationFailed { name, reason } => "plugin '"@ + name@ + "' operation failed: "@
            + reason@,
        SwarmError::PluginVersionMismatch { name, plugin_version, host_version } => "plugin '"@ + name@
            + "' version "@ + plugin_version@ + " is incompatible with host "@ + host_version@,
        SwarmError::ConfigMissing { key } => "missing configuration key: '"@ + key@ + "'"@,
        SwarmError::ConfigInvalid { key, reason } => "invalid configuration value for '"@ + key@ + "': "@
            + reason@,
        SwarmError::ChannelError { reason } => "channel communication failed: "@ + reason@,
        SwarmError::Io(_) => "I/O error: "@,
        SwarmError::Serialization(_) => "serialization error: "@,
        SwarmError::Internal { reason } => "internal error: "@ + reason@,
    }
}

impl SwarmError {
    /// The human-readable message of this error.
    pub fn message(&self) -> (r: String)
        ensures
            !(self is Io || self is Serialization) ==> r@ == error_message(*self),
            (self is Io || self is Serialization) ==> r@.len() >= error_message(*self).len()
                && r@.subrange(0, error_message(*self).len() as int) == error_message(*self),
    {
        proof {
            reveal_strlit("agent not found: ");
            reveal_strlit("agent ");
            reveal_strlit(" is in an invalid state for this operation: ");
            reveal_strlit(" lacks capability '");
            reveal_strlit("'");
            reveal_strlit(" exceeded resource limit: ");
            reveal_strlit("task not found: ");
            reveal_strlit("invalid task specification: ");
            reveal_strlit("task ");
            reveal_strlit(" timed out after ");
            reveal_strlit("ms");
            reveal_strlit(" failed: ");
            reveal_strlit("policy ");
            reveal_strlit(" denied action '");
            reveal_strlit("': ");
            reveal_strlit("policy not found: ");
            reveal_strlit("permission denied: subject '");
            reveal_strlit("' lacks '");
            reveal_strlit("' on '");
            reveal_strlit("plugin '");
            reveal_strlit("' failed to initialize: ");
            reveal_strlit("' operation failed: ");
            reveal_strlit("' version ");
            reveal_strlit(" is incompatible with host ");
            reveal_strlit("missing configuration key: '");
            reveal_strlit("invalid configuration value for '");
            reveal_strlit("channel communication failed: ");
            reveal_strlit("I/O error: ");
            reveal_strlit("serialization error: ");
            reveal_strlit("internal error: ");
        }
        match self {
            SwarmError::AgentNotFound { id } => {
                let mut s = owned("agent not found: ");
                s.append(id.to_text().as_str());
                s
            },
            SwarmError::AgentInvalidState { id, reason } => {
                let mut s = owned("agent ");
                s.append(id.to_text().as_str());
                s.append(" is in an invalid state for this operation: ");
                s.append(reason.as_str());
                s
            },
            SwarmError::AgentMissingCapability { id, capability } => {
                let mut s = owned("agent ");
                s.append(id.to_text().as_str());
                s.append(" lacks capability '");
                s.append(capability.as_str());
                s.append("'");
                s
            },
            SwarmError::AgentResourceExceeded { id, resource } => {
                let mut s = owned("agent ");
                s.append(id.to_text().as_str());
                s.append(" exceeded resource limit: ");
                s.append(resource.as_str());
                s
            },
            SwarmError::TaskNotFound { id } => {
                let mut s = owned("task not found: ");
                s.append(id.to_text().as_str());
                s
            },
            SwarmError::InvalidTaskSpec { reason } => {
                let mut s = owned("invalid task specification: ");
                s.append(reason.as_str());
                s
            },
            SwarmError::TaskTimeout { id, elapsed_ms } => {
                let mut s = owned("task ");
                s.append(id.to_text().as_str());
                s.append(" timed out after ");
                s.append(decimal_text(*elapsed_ms).as_str());
                s.append("ms");
                s
            },
            SwarmError::TaskFailed { id, reason } => {
                let mut s = owned("task ");
                s.append(id.to_text().as_str());
                s.append(" failed: ");
                s.append(reason.as_str());
                s
            },
            SwarmError::PolicyViolation { policy_id, action, reason } => {
                let mut s = owned("policy ");
                s.append(policy_id.to_text().as_str());
                s.append(" denied action '");
                s.append(action.as_str());
                s.append("': ");
                s.append(reason.as_str());
                s
            },
            SwarmError::PolicyNotFound { id } => {
                let mut s = owned("policy not found: ");
                s.append(id.to_text().as_str());
                s
            },
            SwarmError::PermissionDenied { subject, permission, resource } => {
                let mut s = owned("permission denied: subject '");
                s.append(subject.as_str());
                s.append("' lacks '");
                s.append(permission.as_str());
                s.append("' on '");
                s.append(resource.as_str());
                s.append("'");
                s
            },
            SwarmError::PluginInitFailed { name, reason } => {
                let mut s = owned("plugin '");
                s.append(name.as_str());
                s.append("' failed to initialize: ");
                s.append(reason.as_str());
                s
            },
            SwarmError::PluginOperationFailed { name, reason } => {
                let mut s = owned("plugin '");
                s.append(name.as_str());
                s.append("' operation failed: ");
                s.append(reason.as_str());
                s
            },
            SwarmError::PluginVersionMismatch { name, plugin_version, host_version } => {
                let mut s = owned("plugin '");
                s.append(name.as_str());
                s.append("' version ");
                s.append(plugin_version.as_str());
                s.append(" is incompatible with host ");
                s.append(host_version.as_str());
                s
            },
            SwarmError::ConfigMissing { key } => {
                let mut s = owned("missing configuration key: '");
                s.append(key.as_str());
                s.append("'");
                s
            },
            SwarmError::ConfigInvalid { key, reason } => {
                let mut s = owned("invalid configuration value for '");
                s.append(key.as_str());
                s.append("': ");
                s.append(reason.as_str());
                s
            },
            SwarmError::ChannelError { reason } => {
                let mut s = owned("channel communication failed: ");
                s.append(reason.as_str());
                s
            },
            SwarmError::Io(e) => {
                let mut s = owned("I/O error: ");
                let t = io_error_text(e);
                s.append(t.as_str());
                proof {
                    assert(s@.subrange(0, 11) =~= "I/O error: "@);
                }
                s
            },
            SwarmError::Serialization(e) => {
                let mut s = owned("serialization error: ");
                let t = json_error_text(e);
                s.append(t.as_str());
                proof {
                    assert(s@.subrange(0, 21) =~= "serialization error: "@);
                }
                s
            },
            SwarmError::Internal { reason } => {
                let mut s = owned("internal error: ");
                s.append(reason.as_str());
                s
            },
        }
    }
}

} // verus!
