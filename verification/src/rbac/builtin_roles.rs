//! Built-in roles provided by the framework as a starting point.

use vstd::prelude::*;
use super::{Permission, PermissionView, Role, grants_spec, perms_grant};

verus! {

/// The `admin` role: one wildcard permission. Intended only for framework
/// administrators.
pub fn admin() -> (r: Role)
    ensures
        r.name@ == "admin"@,
        r.permission_values() == seq![("*"@, "*"@)],
        forall|required: PermissionView| #[trigger] perms_grant(r.permission_values(), required),
{
    let mut role = Role::new("admin", "Full access to all framework resources");
    role.add_permission(Permission::wildcard());
    assert(role.permission_values() =~= seq![("*"@, "*"@)]);
    assert forall|required: PermissionView| #[trigger] perms_grant(role.permission_values(), required) by {
        assert(grants_spec(role.permission_values()[0], required));
    }
    role
}

/// The `task-executor` role for worker agents: read and update tasks, read agents.
pub fn task_executor() -> (r: Role)
    ensures
        r.name@ == "task-executor"@,
        r.permission_values() == seq![
            ("read"@, "task"@),
            ("update"@, "task"@),
            ("read"@, "agent"@),
        ],
{
    let mut role = Role::new("task-executor", "Can execute tasks and report results");
    proof {
        reveal_strlit("read");
        reveal_strlit("update");
        reveal_strlit("task");
        reveal_strlit("agent");
    }
    role.add_permission(Permission::new("read", "task"));
    assert(role.permission_values() =~= seq![("read"@, "task"@)]);
    assert("update"@.len() != "read"@.len());
    role.add_permission(Permission::new("update", "task"));
    assert(role.permission_values() =~= seq![("read"@, "task"@), ("update"@, "task"@)]);
    assert("agent"@.len() != "task"@.len());
    role.add_permission(Permission::new("read", "agent"));
    assert(role.permission_values() =~= seq![
        ("read"@, "task"@),
        ("update"@, "task"@),
        ("read"@, "agent"@),
    ]);
    role
}

/// The `task-submitter` role for clients submitting tasks: create and read tasks.
pub fn task_submitter() -> (r: Role)
    ensures
        r.name@ == "task-submitter"@,
        r.permission_values() == seq![("create"@, "task"@), ("read"@, "task"@)],
{
    let mut role = Role::new("task-submitter", "Can submit new tasks");
    proof {
        reveal_strlit("create");
        reveal_strlit("read");
    }
    role.add_permission(Permission::new("create", "task"));
    assert(role.permission_values() =~= seq![("create"@, "task"@)]);
    assert("create"@.len() != "read"@.len());
    role.add_permission(Permission::new("read", "task"));
    assert(role.permission_values() =~= seq![("create"@, "task"@), ("read"@, "task"@)]);
    role
}

/// The `observer` role: read access to every resource.
pub fn observer() -> (r: Role)
    ensures
        r.name@ == "observer"@,
        r.permission_values() == seq![("read"@, "*"@)],
        forall|resource: Seq<char>| #[trigger] perms_grant(r.permission_values(), ("read"@, resource)),
{
    let mut role = Role::new("observer", "Read-only access to framework state");
    role.add_permission(Permission::new("read", "*"));
    assert(role.permission_values() =~= seq![("read"@, "*"@)]);
    assert forall|resource: Seq<char>| #[trigger] perms_grant(role.permission_values(), ("read"@, resource)) by {
        assert(grants_spec(role.permission_values()[0], ("read"@, resource)));
    }
    role
}

} // verus!
