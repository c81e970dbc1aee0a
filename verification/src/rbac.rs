//! Role-based access control primitives: subjects, permissions and roles.

use vstd::prelude::*;
use crate::text::{owned, str_eq};

pub mod builtin_roles;

verus! {

/// An entity that can be granted roles and permissions.
#[derive(Debug, Clone, PartialEq, Eq, Hash)]
pub enum Subject {
    /// A registered agent identified by its ID string.
    Agent(String),
    /// A human operator or API user.
    User(String),
    /// A service account used by automated systems.
    ServiceAccount(String),
    /// A plugin identified by its name.
    Plugin(String),
}

/// The value of a subject: a kind tag (0 agent, 1 user, 2 service account,
/// 3 plugin) and the subject's name.
pub type SubjectView = (int, Seq<char>);

impl View for Subject {
    type V = SubjectView;

    open spec fn view(&self) -> SubjectView {
        match self {
            Subject::Agent(s) => (0, s@),
            Subject::User(s) => (1, s@),
            Subject::ServiceAccount(s) => (2, s@),
            Subject::Plugin(s) => (3, s@),
        }
    }
}

/// The audit prefix of each subject kind.
pub open spec fn subject_prefix(kind: int) -> Seq<char> {
    if kind == 0 {
        "agent:"@
    } else if kind == 1 {
        "user:"@
    } else if kind == 2 {
        "serviceaccount:"@
    } else {
        "plugin:"@
    }
}

impl Subject {
    /// Returns a stable string representation for use in audit logs.
    pub fn as_str(&self) -> (r: String)
        ensures
            r@ == subject_prefix(self@.0) + self@.1,
    {
        let (mut out, name) = match self {
            Subject::Agent(id) => (owned("agent:"), id),
            Subject::User(name) => (owned("user:"), name),
            Subject::ServiceAccount(name) => (owned("serviceaccount:"), name),
            Subject::Plugin(name) => (owned("plugin:"), name),
        };
        out.append(name.as_str());
        proof {
            reveal_strlit("agent:");
            reveal_strlit("user:");
            reveal_strlit("serviceaccount:");
            reveal_strlit("plugin:");
        }
        out
    }

    /// Whether two subjects are the same value.
    pub fn same_as(&self, other: &Subject) -> (r: bool)
        ensures
            r == (self@ == other@),
    {
        match (self, other) {
            (Subject::Agent(a), Subject::Agent(b)) => *a == *b,
            (Subject::User(a), Subject::User(b)) => *a == *b,
            (Subject::ServiceAccount(a), Subject::ServiceAccount(b)) => *a == *b,
            (Subject::Plugin(a), Subject::Plugin(b)) => *a == *b,
            _ => false,
        }
    }

    /// A copy of this subject.
    pub fn duplicate(&self) -> (r: Subject)
        ensures
            r@ == self@,
    {
        match self {
            Subject::Agent(s) => Subject::Agent(s.clone()),
            Subject::User(s) => Subject::User(s.clone()),
            Subject::ServiceAccount(s) => Subject::ServiceAccount(s.clone()),
            Subject::Plugin(s) => Subject::Plugin(s.clone()),
        }
    }
}

/// A permission: an allowed action verb on a resource type (`verb:resource`).
#[derive(Debug, Clone, PartialEq, Eq, Hash)]
pub struct Permission {
    /// The action verb (e.g., `"create"`, `"read"`).
    pub verb: String,
    /// The resource type the permission applies to (e.g., `"task"`).
    pub resource: String,
}

/// The value of a permission: its verb and its resource.
pub type PermissionView = (Seq<char>, Seq<char>);

impl View for Permission {
    type V = PermissionView;

    open spec fn view(&self) -> PermissionView {
        (self.verb@, self.resource@)
    }
}

/// Whether a held permission grants a required one: each field is either the
/// wildcard `*` or equal to the required field.
pub open spec fn grants_spec(held: PermissionView, required: PermissionView) -> bool {
    &&& (held.0 == "*"@ || held.0 == required.0)
    &&& (held.1 == "*"@ || held.1 == required.1)
}

impl Permission {
    /// Create a new permission.
    pub fn new(verb: &str, resource: &str) -> (r: Self)
        ensures
            r@ == (verb@, resource@),
    {
        Permission { verb: owned(verb), resource: owned(resource) }
    }

    /// Wildcard permission that grants all verbs on all resources.
    pub fn wildcard() -> (r: Self)
        ensures
            r@ == ("*"@, "*"@),
    {
        Self::new("*", "*")
    }

    /// Returns `true` if this permission grants the `required` permission.
    pub fn grants(&self, required: &Permission) -> (r: bool)
        ensures
            r == grants_spec(self@, required@),
    {
        let verb_match = str_eq(self.verb.as_str(), "*") || self.verb == required.verb;
        let resource_match = str_eq(self.resource.as_str(), "*") || self.resource
            == required.resource;
        verb_match && resource_match
    }

    /// Whether two permissions are the same value.
    pub fn same_as(&self, other: &Permission) -> (r: bool)
        ensures
            r == (self@ == other@),
    {
        self.verb == other.verb && self.resource == other.resource
    }

    /// A copy of this permission.
    pub fn duplicate(&self) -> (r: Permission)
        ensures
            r@ == self@,
    {
        Permission { verb: self.verb.clone(), resource: self.resource.clone() }
    }

    /// The display form `verb:resource`.
    pub fn to_text(&self) -> (r: String)
        ensures
            r@ == self.verb@ + ":"@ + self.resource@,
    {
        let mut s = self.verb.clone();
        s.append(":");
        s.append(self.resource.as_str());
        s
    }
}

/// Whether some permission in `perms` grants `required`.
pub open spec fn perms_grant(perms: Seq<PermissionView>, required: PermissionView) -> bool {
    exists|i: int| 0 <= i < perms.len() && #[trigger] grants_spec(perms[i], required)
}

/// Whether a sequence of permissions holds every value at most once.
pub open spec fn distinct_perms(s: Seq<PermissionView>) -> bool {
    forall|i: int, j: int| 0 <= i < j < s.len() ==> s[i] != s[j]
}

/// The values of a sequence of permissions.
pub open spec fn perms_view(s: Seq<Permission>) -> Seq<PermissionView> {
    s.map_values(|p: Permission| p@)
}

/// A named set of permissions that can be granted to subjects.
#[derive(Debug)]
pub struct Role {
    /// Unique name for this role (e.g., `"admin"`).
    pub name: String,
    /// Human-readable description.
    pub description: String,
    /// Permissions included in this role.
    pub permissions: Vec<Permission>,
}

impl Role {
    /// The permissions of this role, each once, in the order they were added.
    pub open spec fn permission_values(&self) -> Seq<PermissionView> {
        perms_view(self.permissions@)
    }

    /// Create a new role with no permissions.
    pub fn new(name: &str, description: &str) -> (r: Self)
        ensures
            r.name@ == name@,
            r.description@ == description@,
            r.permission_values() == Seq::<PermissionView>::empty(),
    {
        let r = Role { name: owned(name), description: owned(description), permissions: Vec::new() };
        assert(r.permission_values() =~= Seq::<PermissionView>::empty());
        r
    }

    /// Whether the role holds a permission equal to `p`.
    pub fn holds(&self, p: &Permission) -> (r: bool)
        ensures
            r == self.permission_values().contains(p@),
    {
        let n = self.permissions.len();
        let mut i: usize = 0;
        while i < n
            invariant
                i <= n == self.permissions@.len(),
                forall|k: int| 0 <= k < i ==> self.permissions@[k]@ != p@,
            decreases n - i,
        {
            if self.permissions[i].same_as(p) {
                assert(self.permission_values()[i as int] == p@);
                return true;
            }
            i = i + 1;
        }
        proof {
            if self.permission_values().contains(p@) {
                let k = choose|k: int|
                    0 <= k < self.permission_values().len() && self.permission_values()[k] == p@;
                assert(self.permissions@[k]@ == p@);
            }
        }
        false
    }

    /// Add a permission to this role; adding one already held changes nothing.
    pub fn add_permission(&mut self, permission: Permission)
        ensures
            final(self).name@ == old(self).name@,
            final(self).description@ == old(self).description@,
            old(self).permission_values().contains(permission@) ==> final(self).permission_values() == old(self).permission_values(),
            !old(self).permission_values().contains(permission@) ==> final(self).permission_values() == old(self).permission_values().push(permission@),
    {
        if self.holds(&permission) {
            return;
        }
        let ghost v = permission@;
        let ghost prev = self.permission_values();
        self.permissions.push(permission);
        assert(perms_view(self.permissions@) =~= prev.push(v));
    }

    /// Returns `true` if this role grants the specified permission.
    pub fn has_permission(&self, required: &Permission) -> (r: bool)
        ensures
            r == perms_grant(self.permission_values(), required@),
    {
        let n = self.permissions.len();
        let mut i: usize = 0;
        while i < n
            invariant
                i <= n == self.permissions@.len(),
                self.permission_values().len() == n,
                forall|k: int|
                    0 <= k < i ==> !grants_spec(#[trigger] self.permission_values()[k], required@),
            decreases n - i,
        {
            if self.permissions[i].grants(required) {
                assert(grants_spec(self.permission_values()[i as int], required@));
                return true;
            }
            i = i + 1;
        }
        false
    }

    /// The permissions of this role, in the order they were added.
    pub fn permissions(&self) -> (r: &[Permission])
        ensures
            perms_view(r@) == self.permission_values(),
    {
        self.permissions.as_slice()
    }

    /// A copy of this role.
    pub fn duplicate(&self) -> (r: Role)
        ensures
            r.name@ == self.name@,
            r.description@ == self.description@,
            r.permission_values() == self.permission_values(),
    {
        let mut perms: Vec<Permission> = Vec::new();
        let n = self.permissions.len();
        let mut i: usize = 0;
        while i < n
            invariant
                i <= n == self.permissions@.len(),
                perms_view(perms@) == self.permission_values().take(i as int),
            decreases n - i,
        {
            assert(self.permission_values().len() == n);
            assert(perms_view(perms@).len() == perms@.len());
            assert(self.permission_values().take(i as int).len() == i);
            let p = self.permissions[i].duplicate();
            let ghost before = perms@;
            perms.push(p);
            assert(perms@ == before.push(p));
            i = i + 1;
            assert forall|x: int| 0 <= x < i implies #[trigger] perms_view(perms@)[x]
                == self.permission_values().take(i as int)[x] by {
                if x < i - 1 {
                    assert(perms_view(before)[x] == self.permission_values().take(i - 1)[x]);
                }
            }
            assert(perms_view(perms@) =~= self.permission_values().take(i as int));
        }
        assert(self.permission_values().take(n as int) =~= self.permission_values());
        Role { name: self.name.clone(), description: self.description.clone(), permissions: perms }
    }
}

/// Adding a permission never takes away a grant: whatever a role granted
/// before `add_permission`, it still grants afterwards.
pub proof fn lemma_add_permission_keeps_grants(
    before: Seq<PermissionView>,
    added: PermissionView,
    required: PermissionView,
)
    requires
        perms_grant(before, required),
    ensures
        perms_grant(before.push(added), required),
{
    let i = choose|i: int| 0 <= i < before.len() && #[trigger] grants_spec(before[i], required);
    assert(before.push(added)[i] == before[i]);
}

/// `add_permission` keeps the permissions of a role free of duplicates.
pub proof fn lemma_add_permission_keeps_distinct(before: Seq<PermissionView>, added: PermissionView)
    requires
        distinct_perms(before),
    ensures
        before.contains(added) ==> distinct_perms(before),
        !before.contains(added) ==> distinct_perms(before.push(added)),
{
    if !before.contains(added) {
        let after = before.push(added);
        assert forall|i: int, j: int| 0 <= i < j < after.len() implies after[i] != after[j] by {
            if j == before.len() {
                assert(after[i] == before[i]);
            }
        }
    }
}

/// A role that holds a permission grants exactly that permission.
pub proof fn lemma_held_permission_is_granted(perms: Seq<PermissionView>, p: PermissionView)
    requires
        perms.contains(p),
    ensures
        perms_grant(perms, p),
{
    let i = choose|i: int| 0 <= i < perms.len() && perms[i] == p;
    assert(grants_spec(perms[i], p));
}

} // verus!
