//! Role assignments and permission checks.
//!
//! Roles are defined by name; subjects are assigned role names. A subject
//! holds a permission when one of its assigned roles is defined and grants
//! it. An assignment may name a role that is not defined yet; it grants
//! nothing until the role is defined.

use vstd::prelude::*;
use dashmap::DashMap;
use crate::rbac::{perms_grant, Permission, PermissionView, Role, Subject, SubjectView};
use crate::text::{owned, position_of};

verus! {

/// Whether two roles hold the same values.
pub open spec fn same_role(a: Role, b: Role) -> bool {
    &&& a.name@ == b.name@
    &&& a.description@ == b.description@
    &&& a.permission_values() == b.permission_values()
}

/// The texts of a sequence of strings.
pub open spec fn texts(s: Seq<String>) -> Seq<Seq<char>> {
    s.map_values(|x: String| x@)
}

/// The concurrent table of role definitions, keyed by role name.
pub type RoleTable = DashMap<String, Role>;

/// The concurrent table of role assignments, keyed by subject.
pub type AssignmentTable = DashMap<Subject, Vec<String>>;

/// The entries of a role table, keyed by the role name's text.
pub uninterp spec fn role_table(m: RoleTable) -> Map<Seq<char>, Role>;

/// The entries of an assignment table: for each subject's value, the texts
/// of its assigned role names.
pub uninterp spec fn assignment_table(m: AssignmentTable) -> Map<SubjectView, Seq<Seq<char>>>;

/// `DashMap::new`: an empty role table.
#[verifier::external_body]
fn roles_new() -> (r: RoleTable)
    ensures
        role_table(r).dom() == Set::<Seq<char>>::empty(),
{
    DashMap::new()
}

/// `DashMap::insert`: the role under `key` becomes `value`, others stay.
#[verifier::external_body]
fn roles_insert(m: &mut RoleTable, key: String, value: Role)
    ensures
        role_table(*final(m)) == role_table(*old(m)).insert(key@, value),
{
    m.insert(key, value);
}

/// `DashMap::get`: a copy of the role under `key`, if there is one.
#[verifier::external_body]
fn roles_get(m: &RoleTable, key: &str) -> (r: Option<Role>)
    ensures
        role_table(*m).dom().contains(key@) <==> r.is_some(),
        r matches Some(x) ==> same_role(x, role_table(*m)[key@]),
{
    m.get(key).map(|e| e.value().duplicate())
}

/// `DashMap::new`: an empty assignment table.
#[verifier::external_body]
fn assignments_new() -> (r: AssignmentTable)
    ensures
        assignment_table(r).dom() == Set::<SubjectView>::empty(),
{
    DashMap::new()
}

/// `DashMap::insert`: the role names of `key` become `value`, others stay.
#[verifier::external_body]
fn assignments_insert(m: &mut AssignmentTable, key: Subject, value: Vec<String>)
    ensures
        assignment_table(*final(m)) == assignment_table(*old(m)).insert(key@, texts(value@)),
{
    m.insert(key, value);
}

/// `DashMap::get`: a copy of the role names of `key`, if it has an entry.
#[verifier::external_body]
fn assignments_get(m: &AssignmentTable, key: &Subject) -> (r: Option<Vec<String>>)
    ensures
        assignment_table(*m).dom().contains(key@) <==> r.is_some(),
        r matches Some(v) ==> texts(v@) == assignment_table(*m)[key@],
{
    m.get(key).map(|e| e.value().clone())
}

/// Whether role `name` is defined in `roles` and grants `required`.
pub open spec fn role_grants(roles: Map<Seq<char>, Role>, name: Seq<char>, required: PermissionView) -> bool {
    roles.dom().contains(name) && perms_grant(roles[name].permission_values(), required)
}

/// Whether role `name` is defined in `roles` and holds permission `p`.
pub open spec fn role_holds(roles: Map<Seq<char>, Role>, name: Seq<char>, p: PermissionView) -> bool {
    roles.dom().contains(name) && roles[name].permission_values().contains(p)
}

/// Manages role definitions and assignments, and answers permission queries.
pub struct RbacEngine {
    roles: RoleTable,
    assignments: AssignmentTable,
}

impl RbacEngine {
    /// The defined roles, keyed by name.
    pub closed spec fn roles(&self) -> Map<Seq<char>, Role> {
        role_table(self.roles)
    }

    /// The role names assigned to subject `s` (none if it has no entry).
    pub closed spec fn assigned(&self, s: SubjectView) -> Seq<Seq<char>> {
        if assignment_table(self.assignments).dom().contains(s) {
            assignment_table(self.assignments)[s]
        } else {
            Seq::empty()
        }
    }

    /// An engine with no roles and no assignments.
    pub fn new() -> (r: Self)
        ensures
            r.roles().dom() == Set::<Seq<char>>::empty(),
            forall|s: SubjectView| r.assigned(s) == Seq::<Seq<char>>::empty(),
    {
        RbacEngine { roles: roles_new(), assignments: assignments_new() }
    }

    /// Define (or redefine) a role under its name.
    pub fn define_role(&mut self, role: Role)
        ensures
            final(self).roles() == old(self).roles().insert(role.name@, role),
            forall|s: SubjectView| final(self).assigned(s) == old(self).assigned(s),
    {
        let key = role.name.clone();
        roles_insert(&mut self.roles, key, role);
    }

    /// Assign a role name to a subject; a name already assigned is not
    /// added again.
    pub fn assign_role(&mut self, subject: &Subject, role_name: &str)
        ensures
            final(self).roles() == old(self).roles(),
            old(self).assigned(subject@).contains(role_name@) ==> final(self).assigned(subject@) == old(self).assigned(subject@),
            !old(self).assigned(subject@).contains(role_name@) ==> final(self).assigned(subject@)
                == old(self).assigned(subject@).push(role_name@),
            forall|s: SubjectView| s != subject@ ==> final(self).assigned(s) == old(self).assigned(s),
    {
        let mut names = match assignments_get(&self.assignments, subject) {
            Some(v) => v,
            None => Vec::new(),
        };
        proof {
            assert(texts(names@) == old(self).assigned(subject@));
        }
        if position_of(names.as_slice(), role_name).is_none() {
            let ghost before = names@;
            names.push(owned(role_name));
            proof {
                assert(texts(names@) =~= texts(before).push(role_name@));
                assert(!old(self).assigned(subject@).contains(role_name@)) by {
                    if old(self).assigned(subject@).contains(role_name@) {
                        let k = choose|k: int| 0 <= k < texts(before).len() && texts(before)[k] == role_name@;
                        assert(before[k]@ == role_name@);
                    }
                }
            }
        } else {
            proof {
                let k = choose|k: int| 0 <= k < names@.len() && names@[k]@ == role_name@;
                assert(texts(names@)[k] == role_name@);
            }
        }
        assignments_insert(&mut self.assignments, subject.duplicate(), names);
    }

    /// Revoke a role name from a subject; every occurrence of the name
    /// leaves the subject's list. A subject without an entry is unchanged.
    pub fn revoke_role(&mut self, subject: &Subject, role_name: &str)
        ensures
            final(self).roles() == old(self).roles(),
            !final(self).assigned(subject@).contains(role_name@),
            forall|n: Seq<char>| n != role_name@ ==> (#[trigger] final(self).assigned(subject@).contains(n)
                <==> old(self).assigned(subject@).contains(n)),
            forall|s: SubjectView| s != subject@ ==> final(self).assigned(s) == old(self).assigned(s),
    {
        match assignments_get(&self.assignments, subject) {
            None => {
                proof {
                    assert(old(self).assigned(subject@) == Seq::<Seq<char>>::empty());
                }
            },
            Some(names) => {
                let ghost old_texts = texts(names@);
                let mut kept: Vec<String> = Vec::new();
                let n = names.len();
                let mut i: usize = 0;
                while i < n
                    invariant
                        i <= n == names@.len(),
                        old_texts == texts(names@),
                        forall|t: Seq<char>| #[trigger] texts(kept@).contains(t) <==> (t != role_name@
                            && exists|j: int| 0 <= j < i && names@[j]@ == t),
                    decreases n - i,
                {
                    let ghost before = kept@;
                    if !crate::text::str_eq(names[i].as_str(), role_name) {
                        kept.push(names[i].clone());
                        proof {
                            assert(texts(kept@) =~= texts(before).push(names@[i as int]@));
                        }
                    }
                    proof {
                        assert forall|t: Seq<char>| #[trigger] texts(kept@).contains(t) <==> (t
                            != role_name@ && exists|j: int| 0 <= j < i + 1 && names@[j]@ == t) by {
                            if texts(kept@).contains(t) && t != names@[i as int]@ {
                                let k = choose|k: int| 0 <= k < texts(kept@).len() && texts(kept@)[k] == t;
                                if k < before.len() {
                                    assert(texts(before)[k] == t);
                                    assert(texts(before).contains(t));
                                }
                            }
                            if t != role_name@ && exists|j: int| 0 <= j < i + 1 && names@[j]@ == t {
                                let j = choose|j: int| 0 <= j < i + 1 && names@[j]@ == t;
                                if j < i {
                                    assert(texts(before).contains(t));
                                    let k = choose|k: int| 0 <= k < texts(before).len() && texts(before)[k] == t;
                                    assert(texts(kept@)[k] == t);
                                } else {
                                    assert(texts(kept@)[texts(kept@).len() - 1] == t);
                                }
                            }
                        }
                    }
                    i = i + 1;
                }
                assignments_insert(&mut self.assignments, subject.duplicate(), kept);
                proof {
                    assert forall|t: Seq<char>| t != role_name@ implies (#[trigger] self.assigned(
                        subject@,
                    ).contains(t) <==> old(self).assigned(subject@).contains(t)) by {
                        if old(self).assigned(subject@).contains(t) {
                            let k = choose|k: int| 0 <= k < old_texts.len() && old_texts[k] == t;
                            assert(names@[k]@ == t);
                        }
                        if exists|j: int| 0 <= j < n && names@[j]@ == t {
                            let j = choose|j: int| 0 <= j < n && names@[j]@ == t;
                            assert(old_texts[j] == t);
                        }
                    }
                }
            },
        }
    }

    /// Whether one of the subject's assigned roles is defined and grants the
    /// required permission.
    pub fn has_permission(&self, subject: &Subject, required: &Permission) -> (r: bool)
        ensures
            r == exists|i: int| 0 <= i < self.assigned(subject@).len() && #[trigger] role_grants(
                self.roles(),
                self.assigned(subject@)[i],
                required@,
            ),
    {
        let names = match assignments_get(&self.assignments, subject) {
            Some(v) => v,
            None => {
                return false;
            },
        };
        let ghost a = texts(names@);
        let n = names.len();
        let mut i: usize = 0;
        while i < n
            invariant
                i <= n == names@.len(),
                a == texts(names@),
                a == self.assigned(subject@),
                forall|j: int| 0 <= j < i ==> !#[trigger] role_grants(self.roles(), a[j], required@),
            decreases n - i,
        {
            match roles_get(&self.roles, names[i].as_str()) {
                Some(role) => {
                    if role.has_permission(required) {
                        proof {
                            assert(role_grants(self.roles(), a[i as int], required@));
                        }
                        return true;
                    }
                },
                None => {},
            }
            proof {
                assert(!role_grants(self.roles(), a[i as int], required@));
            }
            i = i + 1;
        }
        false
    }

    /// Every permission held by one of the subject's defined roles, each
    /// once.
    pub fn effective_permissions(&self, subject: &Subject) -> (r: Vec<Permission>)
        ensures
            forall|p: PermissionView| #[trigger] crate::rbac::perms_view(r@).contains(p) <==> exists|i: int|
                0 <= i < self.assigned(subject@).len() && role_holds(
                    self.roles(),
                    self.assigned(subject@)[i],
                    p,
                ),
            crate::rbac::distinct_perms(crate::rbac::perms_view(r@)),
    {
        let mut out = Role::new("", "");
        let names = match assignments_get(&self.assignments, subject) {
            Some(v) => v,
            None => {
                return out.permissions;
            },
        };
        let ghost a = texts(names@);
        let n = names.len();
        let mut i: usize = 0;
        while i < n
            invariant
                i <= n == names@.len(),
                a == texts(names@),
                a == self.assigned(subject@),
                crate::rbac::distinct_perms(out.permission_values()),
                forall|p: PermissionView| #[trigger] out.permission_values().contains(p) <==> exists|j: int|
                    0 <= j < i && role_holds(self.roles(), a[j], p),
            decreases n - i,
        {
            let ghost before = out.permission_values();
            match roles_get(&self.roles, names[i].as_str()) {
                Some(role) => {
                    let perms = role.permissions();
                    let m = perms.len();
                    let mut k: usize = 0;
                    while k < m
                        invariant
                            k <= m == perms@.len(),
                            crate::rbac::perms_view(perms@) == role.permission_values(),
                            same_role(role, self.roles()[a[i as int]]),
                            self.roles().dom().contains(a[i as int]),
                            crate::rbac::distinct_perms(out.permission_values()),
                            forall|p: PermissionView| #[trigger] out.permission_values().contains(p) <==> (
                                before.contains(p) || exists|q: int| 0 <= q < k && perms@[q]@ == p),
                        decreases m - k,
                    {
                        let ghost mid = out.permission_values();
                        out.add_permission(perms[k].duplicate());
                        proof {
                            assert forall|p: PermissionView| #[trigger] out.permission_values().contains(p)
                                <==> (before.contains(p) || exists|q: int| 0 <= q < k + 1 && perms@[q]@ == p) by {
                                if out.permission_values().contains(p) && p != perms@[k as int]@ {
                                    if !mid.contains(p) {
                                        let x = choose|x: int| 0 <= x < out.permission_values().len() && out.permission_values()[x] == p;
                                        assert(x < mid.len() ==> out.permission_values()[x] == mid[x]);
                                    }
                                }
                                if mid.contains(p) {
                                    let x = choose|x: int| 0 <= x < mid.len() && mid[x] == p;
                                    assert(out.permission_values().contains(p)) by {
                                        assert(out.permission_values()[x] == mid[x]);
                                    }
                                }
                                if p == perms@[k as int]@ && !mid.contains(p) {
                                    assert(out.permission_values()[mid.len() as int] == p);
                                }
                            }
                            if !mid.contains(perms@[k as int]@) {
                                let ov = out.permission_values();
                                assert forall|x: int, y: int| 0 <= x < y < ov.len() implies ov[x] != ov[y] by {
                                    if y == mid.len() {
                                        assert(ov[x] == mid[x]);
                                        assert(mid.contains(mid[x]));
                                    } else {
                                        assert(ov[x] == mid[x] && ov[y] == mid[y]);
                                    }
                                }
                            }
                        }
                        k = k + 1;
                    }
                    proof {
                        assert forall|p: PermissionView| #[trigger] out.permission_values().contains(p) <==> exists|j: int|
                            0 <= j < i + 1 && role_holds(self.roles(), a[j], p) by {
                            if exists|q: int| 0 <= q < m && perms@[q]@ == p {
                                let q = choose|q: int| 0 <= q < m && perms@[q]@ == p;
                                assert(crate::rbac::perms_view(perms@)[q] == p);
                                assert(role_holds(self.roles(), a[i as int], p));
                            }
                            if role_holds(self.roles(), a[i as int], p) {
                                let q = choose|q: int| 0 <= q < role.permission_values().len() && role.permission_values()[q] == p;
                                assert(perms@[q]@ == p);
                            }
                        }
                    }
                },
                None => {
                    proof {
                        assert forall|p: PermissionView| #[trigger] out.permission_values().contains(p) <==> exists|j: int|
                            0 <= j < i + 1 && role_holds(self.roles(), a[j], p) by {
                            if exists|j: int| 0 <= j < i + 1 && role_holds(self.roles(), a[j], p) {
                                let j = choose|j: int| 0 <= j < i + 1 && role_holds(self.roles(), a[j], p);
                                assert(j != i);
                            }
                        }
                    }
                },
            }
            i = i + 1;
        }
        out.permissions
    }
}

} // verus!
