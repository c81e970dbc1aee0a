//! Capabilities: named, optionally versioned abilities that agents advertise
//! and that tasks require.

use vstd::prelude::*;
use crate::text::{opt_view, opt_string_eq, opt_string_clone};

verus! {

/// A named, optionally versioned ability that an agent or plugin can advertise.
#[derive(Debug)]
pub struct Capability {
    /// The canonical name of this capability (e.g., `"text-generation"`).
    pub name: String,
    /// An optional version string (e.g., `"1.0"`).
    pub version: Option<String>,
}

/// The mathematical value of a capability: its name and optional version.
pub type CapabilityView = (Seq<char>, Option<Seq<char>>);

impl View for Capability {
    type V = CapabilityView;

    open spec fn view(&self) -> CapabilityView {
        (self.name@, opt_view(self.version))
    }
}

/// Whether an owned capability satisfies a required one: the names match and,
/// when the requirement names a version, the owned version is exactly that.
pub open spec fn satisfies_spec(owned: CapabilityView, required: CapabilityView) -> bool {
    &&& owned.0 == required.0
    &&& match required.1 {
        None => true,
        Some(v) => owned.1 == Some(v),
    }
}

impl Capability {
    /// Create a capability with only a name.
    pub fn new(name: &str) -> (r: Self)
        ensures
            r@ == (name@, None::<Seq<char>>),
    {
        Capability { name: crate::text::owned(name), version: None }
    }

    /// Create a capability with a name and an explicit version.
    pub fn with_version(name: &str, version: &str) -> (r: Self)
        ensures
            r@ == (name@, Some(version@)),
    {
        Capability { name: crate::text::owned(name), version: Some(crate::text::owned(version)) }
    }

    /// Returns `true` if this capability satisfies `required`.
    pub fn satisfies(&self, required: &Capability) -> (r: bool)
        ensures
            r == satisfies_spec(self@, required@),
            r <==> self@.0 == required@.0 && (required@.1 matches Some(v) ==> self@.1 == Some(v)),
    {
        proof {
            lemma_satisfies_needs_the_version(self@, required@);
        }
        if self.name != required.name {
            return false;
        }
        match &required.version {
            None => true,
            Some(req_ver) => match &self.version {
                Some(v) => *v == *req_ver,
                None => false,
            },
        }
    }

    /// Whether two capabilities are the same value.
    pub fn same_as(&self, other: &Capability) -> (r: bool)
        ensures
            r == (self@ == other@),
    {
        self.name == other.name && opt_string_eq(&self.version, &other.version)
    }

    /// A copy of this capability.
    pub fn duplicate(&self) -> (r: Capability)
        ensures
            r@ == self@,
    {
        Capability { name: self.name.clone(), version: opt_string_clone(&self.version) }
    }

    /// The display form: `name@version`, or just `name` when unversioned.
    pub fn to_text(&self) -> (r: String)
        ensures
            r@ == match self.version {
                Some(v) => self.name@ + "@"@ + v@,
                None => self.name@,
            },
    {
        match &self.version {
            Some(v) => {
                let mut s = self.name.clone();
                s.append("@");
                s.append(v.as_str());
                proof {
                    reveal_strlit("@");
                }
                s
            },
            None => self.name.clone(),
        }
    }
}

/// A set of capabilities advertised by an agent or required by a task.
///
/// The elements are kept free of duplicates; iteration yields them in the
/// order in which they were first added.
#[derive(Debug)]
pub struct CapabilitySet {
    items: Vec<Capability>,
}

/// Whether a sequence of capabilities holds every value at most once.
pub open spec fn distinct_caps(s: Seq<CapabilityView>) -> bool {
    forall|i: int, j: int| 0 <= i < j < s.len() ==> s[i] != s[j]
}

/// Whether some capability in `owned` satisfies `req`.
pub open spec fn satisfied_by(owned: Seq<CapabilityView>, req: CapabilityView) -> bool {
    exists|m: int| 0 <= m < owned.len() && #[trigger] satisfies_spec(owned[m], req)
}

/// Whether the capabilities in `owned` satisfy every capability in `required`.
pub open spec fn satisfies_all_spec(owned: Seq<CapabilityView>, required: Seq<CapabilityView>) -> bool {
    forall|k: int| 0 <= k < required.len() ==> #[trigger] satisfied_by(owned, required[k])
}

/// The values of a sequence of capabilities.
pub open spec fn caps_view(s: Seq<Capability>) -> Seq<CapabilityView> {
    s.map_values(|c: Capability| c@)
}

impl View for CapabilitySet {
    type V = Seq<CapabilityView>;

    closed spec fn view(&self) -> Seq<CapabilityView> {
        caps_view(self.items@)
    }
}

impl CapabilitySet {
    #[verifier::type_invariant]
    closed spec fn wf(&self) -> bool {
        distinct_caps(self@)
    }

    /// Create an empty capability set.
    pub fn new() -> (r: Self)
        ensures
            r@ == Seq::<CapabilityView>::empty(),
    {
        let r = CapabilitySet { items: Vec::new() };
        assert(r@ =~= Seq::<CapabilityView>::empty());
        r
    }

    /// Whether the set contains a capability equal to `cap`.
    pub fn contains(&self, cap: &Capability) -> (r: bool)
        ensures
            r == self@.contains(cap@),
    {
        let n = self.items.len();
        let mut i: usize = 0;
        while i < n
            invariant
                i <= n == self.items@.len(),
                forall|k: int| 0 <= k < i ==> self.items@[k]@ != cap@,
            decreases n - i,
        {
            if self.items[i].same_as(cap) {
                assert(self@[i as int] == cap@);
                return true;
            }
            i = i + 1;
        }
        proof {
            if self@.contains(cap@) {
                let k = choose|k: int| 0 <= k < self@.len() && self@[k] == cap@;
                assert(self.items@[k]@ == cap@);
            }
        }
        false
    }

    /// Add a capability to the set; adding one that is already present
    /// leaves the set unchanged.
    pub fn add(&mut self, cap: Capability)
        ensures
            old(self)@.contains(cap@) ==> final(self)@ == old(self)@,
            !old(self)@.contains(cap@) ==> final(self)@ == old(self)@.push(cap@),
    {
        proof {
            use_type_invariant(&*self);
        }
        if self.contains(&cap) {
            return;
        }
        let ghost v = cap@;
        let ghost prev = self@;
        let mut items: Vec<Capability> = Vec::new();
        core::mem::swap(&mut items, &mut self.items);
        items.push(cap);
        assert(caps_view(items@) =~= prev.push(v));
        *self = CapabilitySet { items };
    }

    /// Whether some capability in the set satisfies `req`.
    pub fn any_satisfies(&self, req: &Capability) -> (r: bool)
        ensures
            r == satisfied_by(self@, req@),
    {
        let n = self.items.len();
        let mut m: usize = 0;
        while m < n
            invariant
                m <= n == self.items@.len(),
                self@.len() == n,
                forall|x: int| 0 <= x < m ==> !satisfies_spec(#[trigger] self@[x], req@),
            decreases n - m,
        {
            if self.items[m].satisfies(req) {
                assert(satisfies_spec(self@[m as int], req@));
                return true;
            }
            m = m + 1;
        }
        false
    }

    /// Returns `true` if this set satisfies all capabilities in `required`.
    pub fn satisfies_all(&self, required: &CapabilitySet) -> (r: bool)
        ensures
            r == satisfies_all_spec(self@, required@),
    {
        let n = required.items.len();
        let mut k: usize = 0;
        while k < n
            invariant
                k <= n == required.items@.len(),
                required@.len() == n,
                forall|j: int| 0 <= j < k ==> #[trigger] satisfied_by(self@, required@[j]),
            decreases n - k,
        {
            let req = &required.items[k];
            assert(req@ == required@[k as int]);
            if !self.any_satisfies(req) {
                assert(!satisfied_by(self@, required@[k as int]));
                assert(!satisfies_all_spec(self@, required@));
                return false;
            }
            assert(satisfied_by(self@, required@[k as int]));
            k = k + 1;
        }
        true
    }

    /// Returns `true` if the set contains no capabilities.
    pub fn is_empty(&self) -> (r: bool)
        ensures
            r == (self@.len() == 0),
    {
        self.items.len() == 0
    }

    /// Returns the number of capabilities in the set.
    pub fn len(&self) -> (r: usize)
        ensures
            r == self@.len(),
    {
        self.items.len()
    }

    /// The capabilities in the set, in insertion order.
    pub fn as_slice(&self) -> (r: &[Capability])
        ensures
            caps_view(r@) == self@,
    {
        self.items.as_slice()
    }

    /// Iterate over all capabilities, in the order they were added.
    pub fn iter(&self) -> (r: core::slice::Iter<'_, Capability>)
        ensures
            caps_view(vstd::std_specs::iter::IteratorSpec::remaining(&r).unref()) == self@,
    {
        let s = self.items.as_slice();
        let r = s.iter();
        proof {
            assert(s@.as_ref().unref() =~= self.items@);
        }
        r
    }

    /// A copy of this set.
    pub fn duplicate(&self) -> (r: CapabilitySet)
        ensures
            r@ == self@,
    {
        proof {
            use_type_invariant(self);
        }
        let mut items: Vec<Capability> = Vec::new();
        let n = self.items.len();
        let mut i: usize = 0;
        while i < n
            invariant
                i <= n == self.items@.len(),
                caps_view(items@) == self@.take(i as int),
            decreases n - i,
        {
            assert(self@.len() == n);
            assert(caps_view(items@).len() == items@.len());
            assert(self@.take(i as int).len() == i);
            assert(items@.len() == i);
            let c = self.items[i].duplicate();
            let ghost before = items@;
            assert(c@ == self@[i as int]);
            items.push(c);
            assert(items@ == before.push(c));
            i = i + 1;
            assert forall|x: int| 0 <= x < i implies #[trigger] caps_view(items@)[x] == self@.take(i as int)[x] by {
                if x < i - 1 {
                    assert(caps_view(before)[x] == self@.take(i - 1)[x]);
                }
            }
            assert(caps_view(items@) =~= self@.take(i as int));
        }
        assert(self@.take(n as int) =~= self@);
        CapabilitySet { items }
    }
}

/// A capability satisfies a requirement exactly when the names agree and,
/// when the requirement names a version, the capability has exactly that
/// version; an unversioned capability never satisfies a versioned
/// requirement.
pub proof fn lemma_satisfies_needs_the_version(owned: CapabilityView, required: CapabilityView)
    ensures
        satisfies_spec(owned, required) ==> owned.0 == required.0,
        satisfies_spec(owned, required) && required.1 is Some ==> owned.1 == required.1,
        owned.1 is None && required.1 is Some ==> !satisfies_spec(owned, required),
        owned.0 == required.0 && (required.1 is None || owned.1 == required.1) ==> satisfies_spec(owned, required),
{
}

/// An agent whose capabilities satisfy a requirement list holds, for every
/// versioned requirement, a capability of that name and exactly that
/// version.
pub proof fn lemma_satisfies_all_needs_each_version(owned: Seq<CapabilityView>, required: Seq<CapabilityView>, k: int)
    requires
        satisfies_all_spec(owned, required),
        0 <= k < required.len(),
        required[k].1 is Some,
    ensures
        owned.contains(required[k]),
{
    assert(satisfied_by(owned, required[k]));
    let m = choose|m: int| 0 <= m < owned.len() && #[trigger] satisfies_spec(owned[m], required[k]);
    lemma_satisfies_needs_the_version(owned[m], required[k]);
    assert(owned[m] == required[k]);
}

} // verus!
