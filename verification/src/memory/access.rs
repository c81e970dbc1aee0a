//! Memory access profiles: which scopes an agent may read and write, and up
//! to which sensitivity.

use vstd::prelude::*;
use crate::memory::entry::{scope_view, MemoryScope, SensitivityLevel};

verus! {

/// One access rule: a scope, whether it may be read and written, and the
/// highest sensitivity accessible in it.
#[derive(Debug, Clone)]
pub struct MemoryAccessRule {
    /// The scope the rule applies to.
    pub scope: MemoryScope,
    /// Whether the scope may be read.
    pub read: bool,
    /// Whether the scope may be written.
    pub write: bool,
    /// The highest sensitivity accessible.
    pub max_sensitivity: SensitivityLevel,
}

/// An agent's access rules; with no rule, nothing is accessible.
#[derive(Debug, Clone)]
pub struct MemoryAccessProfile {
    /// The rules, in the order they were added.
    pub rules: Vec<MemoryAccessRule>,
}

/// Whether some rule for scope `s` grants reading.
pub open spec fn readable(rules: Seq<MemoryAccessRule>, s: MemoryScope) -> bool {
    exists|i: int| 0 <= i < rules.len() && scope_view(#[trigger] rules[i].scope) == scope_view(s) && rules[i].read
}

/// Whether some rule for scope `s` grants writing.
pub open spec fn writable(rules: Seq<MemoryAccessRule>, s: MemoryScope) -> bool {
    exists|i: int| 0 <= i < rules.len() && scope_view(#[trigger] rules[i].scope) == scope_view(s) && rules[i].write
}

/// Whether `level` is the highest sensitivity among the rules for scope `s`.
pub open spec fn highest_for(rules: Seq<MemoryAccessRule>, s: MemoryScope, level: SensitivityLevel) -> bool {
    &&& exists|i: int| 0 <= i < rules.len() && scope_view(#[trigger] rules[i].scope) == scope_view(s)
        && rules[i].max_sensitivity == level
    &&& forall|i: int| 0 <= i < rules.len() && scope_view(#[trigger] rules[i].scope) == scope_view(s)
        ==> rules[i].max_sensitivity.rank() <= level.rank()
}

impl MemoryAccessProfile {
    /// A profile with no rules.
    pub fn new() -> (r: Self)
        ensures
            r.rules@.len() == 0,
    {
        MemoryAccessProfile { rules: Vec::new() }
    }

    /// Add a rule.
    pub fn add_rule(&mut self, rule: MemoryAccessRule)
        ensures
            final(self).rules@ == old(self).rules@.push(rule),
    {
        self.rules.push(rule);
    }

    /// Whether some rule for the scope grants reading.
    pub fn can_read(&self, scope: &MemoryScope) -> (r: bool)
        ensures
            r == readable(self.rules@, *scope),
    {
        let mut i: usize = 0;
        while i < self.rules.len()
            invariant
                i <= self.rules@.len(),
                forall|k: int| 0 <= k < i ==> !(scope_view(#[trigger] self.rules@[k].scope) == scope_view(*scope)
                    && self.rules@[k].read),
            decreases self.rules@.len() - i,
        {
            if self.rules[i].scope.same_as(scope) && self.rules[i].read {
                return true;
            }
            i = i + 1;
        }
        false
    }

    /// Whether some rule for the scope grants writing.
    pub fn can_write(&self, scope: &MemoryScope) -> (r: bool)
        ensures
            r == writable(self.rules@, *scope),
    {
        let mut i: usize = 0;
        while i < self.rules.len()
            invariant
                i <= self.rules@.len(),
                forall|k: int| 0 <= k < i ==> !(scope_view(#[trigger] self.rules@[k].scope) == scope_view(*scope)
                    && self.rules@[k].write),
            decreases self.rules@.len() - i,
        {
            if self.rules[i].scope.same_as(scope) && self.rules[i].write {
                return true;
            }
            i = i + 1;
        }
        false
    }

    /// The highest sensitivity any rule for the scope allows; `None` when no
    /// rule applies to the scope.
    pub fn max_sensitivity_for(&self, scope: &MemoryScope) -> (r: Option<SensitivityLevel>)
        ensures
            r is None <==> forall|i: int| 0 <= i < self.rules@.len() ==> scope_view(
                #[trigger] self.rules@[i].scope,
            ) != scope_view(*scope),
            r matches Some(level) ==> highest_for(self.rules@, *scope, level),
    {
        let mut best: Option<SensitivityLevel> = None;
        let mut i: usize = 0;
        while i < self.rules.len()
            invariant
                i <= self.rules@.len(),
                best is None <==> forall|k: int| 0 <= k < i ==> scope_view(#[trigger] self.rules@[k].scope)
                    != scope_view(*scope),
                best matches Some(level) ==> highest_for(self.rules@.take(i as int), *scope, level),
            decreases self.rules@.len() - i,
        {
            let ghost before = self.rules@.take(i as int);
            let rule = &self.rules[i];
            proof {
                assert(self.rules@.take(i + 1) =~= before.push(*rule));
            }
            if rule.scope.same_as(scope) {
                match best {
                    None => {
                        best = Some(rule.max_sensitivity);
                        proof {
                            let t = self.rules@.take(i + 1);
                            assert(t[i as int] == *rule);
                            assert forall|k: int| 0 <= k < t.len() && scope_view(#[trigger] t[k].scope)
                                == scope_view(*scope) implies t[k].max_sensitivity.rank() <= rule.max_sensitivity.rank() by {
                                if k < i {
                                    assert(t[k] == self.rules@[k]);
                                }
                            }
                        }
                    },
                    Some(b) => {
                        if rule.max_sensitivity.exceeds(&b) {
                            best = Some(rule.max_sensitivity);
                        }
                        proof {
                            let t = self.rules@.take(i + 1);
                            let lv = best->Some_0;
                            assert(t[i as int] == *rule);
                            assert forall|k: int| 0 <= k < t.len() && scope_view(#[trigger] t[k].scope)
                                == scope_view(*scope) implies t[k].max_sensitivity.rank() <= lv.rank() by {
                                if k < i {
                                    assert(t[k] == before[k]);
                                }
                            }
                            if lv == b {
                                let j = choose|j: int| 0 <= j < before.len() && scope_view(#[trigger] before[j].scope)
                                    == scope_view(*scope) && before[j].max_sensitivity == b;
                                assert(t[j] == before[j]);
                            }
                        }
                    },
                }
            } else {
                proof {
                    let t = self.rules@.take(i + 1);
                    if best is Some {
                        let lv = best->Some_0;
                        let j = choose|j: int| 0 <= j < before.len() && scope_view(#[trigger] before[j].scope)
                            == scope_view(*scope) && before[j].max_sensitivity == lv;
                        assert(t[j] == before[j]);
                        assert forall|k: int| 0 <= k < t.len() && scope_view(#[trigger] t[k].scope)
                            == scope_view(*scope) implies t[k].max_sensitivity.rank() <= lv.rank() by {
                            if k < i {
                                assert(t[k] == before[k]);
                            }
                        }
                    }
                }
            }
            i = i + 1;
        }
        proof {
            assert(self.rules@.take(i as int) =~= self.rules@);
        }
        best
    }
}

impl Default for MemoryAccessProfile {
    fn default() -> (r: Self)
        ensures
            r.rules@.len() == 0,
    {
        Self::new()
    }
}

} // verus!
