//! Learning strategies: the context they run in and the built-in strategy
//! that turns successful task executions into reusable plan templates.

use vstd::prelude::*;
use crate::error::SwarmResult;
use crate::identity::{uuid_hyphenated, LearningRuleId};
use crate::json::{
    json_array, json_array_of, json_items, json_items_of, json_keys, json_keys_of, json_member, json_member_of,
    json_object_from, json_object_of, json_opt_string, json_opt_string_of, json_string, json_string_of, json_text,
    json_text_of, member_views, texts,
};
use crate::learning::event::{LearningEvent, LearningEventKind};
use crate::learning::output::{category_key, LearningCategory, LearningOutput, LearningResult, LearningStatus};
use crate::learning::scope::{scope_key, LearningScope};
use crate::text::{chars_of, opt_string_clone, opt_view, owned, string_from_chars, trim_spec, trim_str};
use crate::types::{now, rfc3339_of, rfc3339_text};

verus! {

// ── Ordering texts ───────────────────────────────────────────────────────────

/// Whether `a` comes strictly before `b` in lexicographic order of code
/// points (the order of `str`, whose UTF-8 bytes sort the same way).
pub open spec fn text_lt(a: Seq<char>, b: Seq<char>) -> bool
    decreases a.len(),
{
    if b.len() == 0 {
        false
    } else if a.len() == 0 {
        true
    } else if a[0] < b[0] {
        true
    } else if a[0] > b[0] {
        false
    } else {
        text_lt(a.drop_first(), b.drop_first())
    }
}

/// Whether the texts of `s` strictly increase.
pub open spec fn strictly_sorted(s: Seq<Seq<char>>) -> bool {
    forall|i: int, j: int| 0 <= i < j < s.len() ==> text_lt(s[i], s[j])
}

/// No text comes before itself.
pub proof fn lemma_text_lt_irreflexive(a: Seq<char>)
    ensures
        !text_lt(a, a),
    decreases a.len(),
{
    if a.len() > 0 {
        lemma_text_lt_irreflexive(a.drop_first());
    }
}

/// The order is transitive.
pub proof fn lemma_text_lt_transitive(a: Seq<char>, b: Seq<char>, c: Seq<char>)
    requires
        text_lt(a, b),
        text_lt(b, c),
    ensures
        text_lt(a, c),
    decreases a.len(),
{
    if a.len() > 0 && b.len() > 0 && c.len() > 0 && a[0] == b[0] && b[0] == c[0] {
        lemma_text_lt_transitive(a.drop_first(), b.drop_first(), c.drop_first());
    }
}

/// Two different texts are ordered one way or the other.
pub proof fn lemma_text_lt_total(a: Seq<char>, b: Seq<char>)
    requires
        a != b,
    ensures
        text_lt(a, b) || text_lt(b, a),
    decreases a.len(),
{
    if a.len() > 0 && b.len() > 0 && a[0] == b[0] {
        if a.drop_first() == b.drop_first() {
            assert(a =~= seq![a[0]] + a.drop_first());
            assert(b =~= seq![b[0]] + b.drop_first());
        }
        lemma_text_lt_total(a.drop_first(), b.drop_first());
    } else if a.len() == 0 && b.len() == 0 {
        assert(a =~= b);
    }
}

/// Whether `a` comes strictly before `b`.
pub fn text_before(a: &str, b: &str) -> (r: bool)
    ensures
        r == text_lt(a@, b@),
{
    let va = chars_of(a);
    let vb = chars_of(b);
    let mut i: usize = 0;
    proof {
        assert(va@.skip(0) =~= va@);
        assert(vb@.skip(0) =~= vb@);
    }
    while i < va.len() && i < vb.len()
        invariant
            i <= va@.len(),
            i <= vb@.len(),
            va@ == a@,
            vb@ == b@,
            text_lt(a@, b@) == text_lt(va@.skip(i as int), vb@.skip(i as int)),
        decreases va@.len() - i,
    {
        let ca = va[i];
        let cb = vb[i];
        proof {
            assert(va@.skip(i as int)[0] == va@[i as int]);
            assert(vb@.skip(i as int)[0] == vb@[i as int]);
        }
        if ca < cb {
            return true;
        }
        if ca > cb {
            return false;
        }
        proof {
            assert(va@.skip(i as int).drop_first() =~= va@.skip(i + 1));
            assert(vb@.skip(i as int).drop_first() =~= vb@.skip(i + 1));
        }
        i = i + 1;
    }
    i < vb.len()
}

/// The texts of `v`, each once, in increasing order.
pub fn sorted_unique(v: &Vec<String>) -> (r: Vec<String>)
    ensures
        strictly_sorted(texts(r@)),
        texts(r@).to_set() == texts(v@).to_set(),
{
    let mut out: Vec<String> = Vec::new();
    let n = v.len();
    let mut k: usize = 0;
    proof {
        assert(texts(out@).to_set() =~= texts(v@.take(0)).to_set());
    }
    while k < n
        invariant
            k <= n == v@.len(),
            strictly_sorted(texts(out@)),
            texts(out@).to_set() == texts(v@.take(k as int)).to_set(),
        decreases n - k,
    {
        let x = v[k].clone();
        let mut p: usize = 0;
        while p < out.len() && text_before(out[p].as_str(), x.as_str())
            invariant
                p <= out@.len(),
                forall|q: int| 0 <= q < p ==> text_lt(#[trigger] out@[q]@, x@),
            decreases out@.len() - p,
        {
            p = p + 1;
        }
        let ghost before = out@;
        let ghost tb = texts(before);
        proof {
            assert(v@.take(k + 1) =~= v@.take(k as int).push(v@[k as int]));
            assert(texts(v@.take(k + 1)) =~= texts(v@.take(k as int)).push(x@));
            texts(v@.take(k as int)).lemma_push_to_set_commute(x@);
        }
        if p < out.len() && crate::text::str_eq(out[p].as_str(), x.as_str()) {
            proof {
                assert(tb[p as int] == x@);
                assert(texts(v@.take(k + 1)).to_set() =~= texts(v@.take(k as int)).to_set().insert(x@));
                assert(texts(out@).to_set() =~= texts(v@.take(k + 1)).to_set()) by {
                    assert(tb.to_set().contains(x@)) by {
                        assert(tb[p as int] == x@);
                    }
                }
            }
        } else {
            out.insert(p, x);
            proof {
                let t = texts(out@);
                assert(t =~= tb.insert(p as int, x@));
                if p < before.len() {
                    assert(!text_lt(tb[p as int], x@));
                    assert(tb[p as int] != x@);
                    lemma_text_lt_total(tb[p as int], x@);
                }
                assert forall|i: int, j: int| 0 <= i < j < t.len() implies text_lt(t[i], t[j]) by {
                    if j < p {
                        assert(t[i] == tb[i] && t[j] == tb[j]);
                    } else if j == p {
                        assert(t[i] == tb[i]);
                        assert(before[i]@ == tb[i]);
                    } else if i == p {
                        assert(t[j] == tb[j - 1]);
                        if j - 1 > p {
                            lemma_text_lt_transitive(x@, tb[p as int], tb[j - 1]);
                        }
                    } else if i < p {
                        assert(t[i] == tb[i] && t[j] == tb[j - 1]);
                    } else {
                        assert(t[i] == tb[i - 1] && t[j] == tb[j - 1]);
                    }
                }
                assert(t.to_set() =~= tb.to_set().insert(x@)) by {
                    assert forall|y: Seq<char>| t.to_set().contains(y) <==> tb.to_set().insert(x@).contains(y) by {
                        if t.to_set().contains(y) {
                            let q = choose|q: int| 0 <= q < t.len() && t[q] == y;
                            if q < p {
                                assert(tb[q] == y);
                            } else if q > p {
                                assert(tb[q - 1] == y);
                            }
                        }
                        if tb.to_set().contains(y) {
                            let q = choose|q: int| 0 <= q < tb.len() && tb[q] == y;
                            if q < p {
                                assert(t[q] == y);
                            } else {
                                assert(t[q + 1] == y);
                            }
                        }
                        if y == x@ {
                            assert(t[p as int] == y);
                        }
                    }
                }
                assert(texts(v@.take(k + 1)).to_set() =~= texts(v@.take(k as int)).to_set().insert(x@));
            }
        }
        k = k + 1;
    }
    proof {
        assert(v@.take(n as int) =~= v@);
    }
    out
}

// ── Reading the event payload ────────────────────────────────────────────────

/// The text of member `key` of an object document.
pub open spec fn member_text_of(v: serde_json::Value, key: Seq<char>) -> Option<Seq<char>> {
    match json_member_of(v, key) {
        Some(m) => json_text_of(m),
        None => None,
    }
}

/// The member names of member `key` of an object document (none when it is
/// missing or not an object).
pub open spec fn member_keys(v: serde_json::Value, key: Seq<char>) -> Set<Seq<char>> {
    match json_member_of(v, key) {
        Some(m) => json_keys_of(m),
        None => Set::empty(),
    }
}

/// The texts of the string items of an array, in order.
pub open spec fn string_items(items: Seq<serde_json::Value>) -> Seq<Seq<char>>
    decreases items.len(),
{
    if items.len() == 0 {
        Seq::empty()
    } else {
        let rest = string_items(items.drop_last());
        match json_text_of(items.last()) {
            Some(t) => rest.push(t),
            None => rest,
        }
    }
}

/// The texts of the string items of member `key` (none when it is missing
/// or not an array).
pub open spec fn member_strings(v: serde_json::Value, key: Seq<char>) -> Seq<Seq<char>> {
    match json_member_of(v, key) {
        Some(m) => string_items(json_items_of(m)),
        None => Seq::empty(),
    }
}

/// The text under `key` in the payload's `metadata` object.
pub open spec fn metadata_text(v: serde_json::Value, key: Seq<char>) -> Option<Seq<char>> {
    match json_member_of(v, "metadata"@) {
        Some(m) => member_text_of(m, key),
        None => None,
    }
}

/// The text of member `key` of an object document.
fn member_text(v: &serde_json::Value, key: &str) -> (r: Option<String>)
    ensures
        opt_view(r) == member_text_of(*v, key@),
{
    match json_member(v, key) {
        Some(m) => json_text(&m),
        None => None,
    }
}

/// The member names of member `key`, each once, in increasing order.
fn sorted_member_keys(v: &serde_json::Value, key: &str) -> (r: Vec<String>)
    ensures
        strictly_sorted(texts(r@)),
        texts(r@).to_set() == member_keys(*v, key@),
{
    match json_member(v, key) {
        Some(m) => {
            let keys = json_keys(&m);
            sorted_unique(&keys)
        },
        None => {
            let r: Vec<String> = Vec::new();
            proof {
                assert(texts(r@).to_set() =~= Set::<Seq<char>>::empty());
            }
            r
        },
    }
}

/// The texts of the string items of member `key`, each once, in increasing
/// order.
fn sorted_member_strings(v: &serde_json::Value, key: &str) -> (r: Vec<String>)
    ensures
        strictly_sorted(texts(r@)),
        texts(r@).to_set() == member_strings(*v, key@).to_set(),
{
    let items = match json_member(v, key) {
        Some(m) => json_items(&m),
        None => Vec::new(),
    };
    let ghost all = items@;
    proof {
        assert(member_strings(*v, key@) == string_items(all)) by {
            if json_member_of(*v, key@) is None {
                assert(all.len() == 0);
            }
        }
    }
    let mut found: Vec<String> = Vec::new();
    let mut i: usize = 0;
    proof {
        assert(all.take(0) =~= Seq::<serde_json::Value>::empty());
    }
    while i < items.len()
        invariant
            i <= items@.len(),
            all == items@,
            texts(found@) == string_items(all.take(i as int)),
        decreases items@.len() - i,
    {
        proof {
            assert(all.take(i + 1).drop_last() =~= all.take(i as int));
            assert(all.take(i + 1).last() == all[i as int]);
        }
        match json_text(&items[i]) {
            Some(t) => {
                let ghost before = found@;
                found.push(t);
                proof {
                    assert(texts(found@) =~= texts(before).push(t@));
                }
            },
            None => {},
        }
        i = i + 1;
    }
    proof {
        assert(all.take(all.len() as int) =~= all);
    }
    sorted_unique(&found)
}

// ── Building documents ───────────────────────────────────────────────────────

/// The array document of the string documents of some texts.
pub open spec fn string_array(s: Seq<Seq<char>>) -> serde_json::Value {
    json_array_of(s.map_values(|t: Seq<char>| json_string_of(t)))
}

/// The array document of the string documents of some texts.
fn json_string_list(v: &Vec<String>) -> (r: serde_json::Value)
    ensures
        r == string_array(texts(v@)),
{
    let mut items: Vec<serde_json::Value> = Vec::new();
    let mut i: usize = 0;
    while i < v.len()
        invariant
            i <= v@.len(),
            items@ =~= texts(v@).take(i as int).map_values(|t: Seq<char>| json_string_of(t)),
        decreases v@.len() - i,
    {
        let item = json_string(v[i].clone());
        items.push(item);
        i = i + 1;
    }
    proof {
        assert(texts(v@).take(v@.len() as int) =~= texts(v@));
    }
    json_array(items)
}

/// The document of an event kind, as its serialization writes it: the
/// variant's name, or an object naming the custom kind.
pub open spec fn event_kind_json(k: LearningEventKind) -> serde_json::Value {
    match k {
        LearningEventKind::TaskCompleted => json_string_of("TaskCompleted"@),
        LearningEventKind::TaskFailed => json_string_of("TaskFailed"@),
        LearningEventKind::FeedbackReceived => json_string_of("FeedbackReceived"@),
        LearningEventKind::PlanSelected => json_string_of("PlanSelected"@),
        LearningEventKind::Escalation => json_string_of("Escalation"@),
        LearningEventKind::ProviderSelected => json_string_of("ProviderSelected"@),
        LearningEventKind::Custom(s) => json_object_of(seq![("Custom"@, json_string_of(s@))]),
    }
}

/// The document of an event: its kind, agent, task, tenant, time (RFC 3339)
/// and payload.
pub open spec fn event_json(e: LearningEvent) -> serde_json::Value {
    json_object_of(
        seq![
            ("kind"@, event_kind_json(e.kind)),
            ("agent_id"@, json_string_of(e.agent_id@)),
            ("task_id"@, json_opt_string_of(opt_view(e.task_id))),
            ("tenant_id"@, json_opt_string_of(opt_view(e.tenant_id))),
            ("timestamp"@, json_opt_string_of(rfc3339_of(e.timestamp))),
            ("payload"@, e.payload),
        ],
    )
}

/// The document of an event kind.
fn event_kind_document(k: &LearningEventKind) -> (r: serde_json::Value)
    ensures
        r == event_kind_json(*k),
{
    proof {
        reveal_strlit("TaskCompleted");
        reveal_strlit("TaskFailed");
        reveal_strlit("FeedbackReceived");
        reveal_strlit("PlanSelected");
        reveal_strlit("Escalation");
        reveal_strlit("ProviderSelected");
        reveal_strlit("Custom");
    }
    match k {
        LearningEventKind::TaskCompleted => json_string(owned("TaskCompleted")),
        LearningEventKind::TaskFailed => json_string(owned("TaskFailed")),
        LearningEventKind::FeedbackReceived => json_string(owned("FeedbackReceived")),
        LearningEventKind::PlanSelected => json_string(owned("PlanSelected")),
        LearningEventKind::Escalation => json_string(owned("Escalation")),
        LearningEventKind::ProviderSelected => json_string(owned("ProviderSelected")),
        LearningEventKind::Custom(s) => {
            let mut members: Vec<(String, serde_json::Value)> = Vec::new();
            members.push((owned("Custom"), json_string(s.clone())));
            proof {
                assert(member_views(members@) =~= seq![("Custom"@, json_string_of(s@))]);
            }
            json_object_from(members)
        },
    }
}

/// The document of an event.
pub fn event_document(e: &LearningEvent) -> (r: serde_json::Value)
    ensures
        r == event_json(*e),
{
    proof {
        reveal_strlit("kind");
        reveal_strlit("agent_id");
        reveal_strlit("task_id");
        reveal_strlit("tenant_id");
        reveal_strlit("timestamp");
        reveal_strlit("payload");
    }
    let mut members: Vec<(String, serde_json::Value)> = Vec::new();
    members.push((owned("kind"), event_kind_document(&e.kind)));
    members.push((owned("agent_id"), json_string(e.agent_id.clone())));
    members.push((owned("task_id"), json_opt_string(opt_string_clone(&e.task_id))));
    members.push((owned("tenant_id"), json_opt_string(opt_string_clone(&e.tenant_id))));
    members.push((owned("timestamp"), json_opt_string(rfc3339_text(e.timestamp))));
    members.push((owned("payload"), e.payload.clone()));
    proof {
        assert(member_views(members@) =~= seq![
            ("kind"@, event_kind_json(e.kind)),
            ("agent_id"@, json_string_of(e.agent_id@)),
            ("task_id"@, json_opt_string_of(opt_view(e.task_id))),
            ("tenant_id"@, json_opt_string_of(opt_view(e.tenant_id))),
            ("timestamp"@, json_opt_string_of(rfc3339_of(e.timestamp))),
            ("payload"@, e.payload),
        ]);
    }
    json_object_from(members)
}

// ── The execution-template strategy ──────────────────────────────────────────

/// Context given to a strategy while it observes and applies.
#[derive(Debug, Clone)]
pub struct LearningContext {
    /// The scope in which learning is occurring.
    pub scope: LearningScope,
    /// Whether human approval is required for this scope.
    pub require_approval: bool,
    /// The tenant this context belongs to (for isolation).
    pub tenant_id: Option<String>,
}

/// The template name of a task-completed event: its payload's `task_name`,
/// trimmed, when that is non-empty text.
pub open spec fn template_name(e: LearningEvent) -> Option<Seq<char>> {
    match member_text_of(e.payload, "task_name"@) {
        Some(t) => if trim_spec(t).len() > 0 {
            Some(trim_spec(t))
        } else {
            None
        },
        None => None,
    }
}

/// Whether an event teaches a template: a completed task with a template
/// name whose payload's `output` object has at least one member.
pub open spec fn teaches_template(e: LearningEvent) -> bool {
    &&& e.kind == LearningEventKind::TaskCompleted
    &&& template_name(e) is Some
    &&& member_keys(e.payload, "output"@) != Set::<Seq<char>>::empty()
}

/// The delta of a template: its name, the source task, and the sorted
/// capabilities, input keys and output keys, with the provider and
/// personality named in the payload's metadata.
pub open spec fn template_delta(
    name: Seq<char>,
    e: LearningEvent,
    caps: Seq<Seq<char>>,
    inputs: Seq<Seq<char>>,
    outputs: Seq<Seq<char>>,
) -> serde_json::Value {
    json_object_of(
        seq![
            ("template_name"@, json_string_of(name)),
            ("source_task_id"@, json_opt_string_of(opt_view(e.task_id))),
            ("required_capabilities"@, string_array(caps)),
            ("input_keys"@, string_array(inputs)),
            ("output_keys"@, string_array(outputs)),
            ("provider"@, json_opt_string_of(metadata_text(e.payload, "swarm.provider.name"@))),
            ("personality"@, json_opt_string_of(metadata_text(e.payload, "swarm.personality.name"@))),
        ],
    )
}

/// Whether `o` is the template output learned from event `e` by the
/// strategy named `strategy` in context `ctx` (its identifier and creation
/// time aside).
pub open spec fn is_template_output(o: LearningOutput, e: LearningEvent, ctx: LearningContext, strategy: Seq<char>) -> bool {
    let name = template_name(e)->Some_0;
    &&& category_key(o.category) == category_key(LearningCategory::PlanTemplate)
    &&& o.description@ == "Reusable execution template learned from task '"@ + name + "'"@
    &&& scope_key(o.scope) == scope_key(ctx.scope)
    &&& opt_view(o.agent_id) == Some(e.agent_id@)
    &&& opt_view(o.tenant_id) == (if e.tenant_id is Some {
        opt_view(e.tenant_id)
    } else {
        opt_view(ctx.tenant_id)
    })
    &&& o.context == json_object_of(seq![("strategy"@, json_string_of(strategy)), ("event"@, event_json(e))])
    &&& exists|caps: Seq<Seq<char>>, inputs: Seq<Seq<char>>, outputs: Seq<Seq<char>>|
        strictly_sorted(caps) && caps.to_set() == member_strings(e.payload, "required_capabilities"@).to_set()
            && strictly_sorted(inputs) && inputs.to_set() == member_keys(e.payload, "input"@) && strictly_sorted(
            outputs,
        ) && outputs.to_set() == member_keys(e.payload, "output"@) && o.delta == template_delta(
            name,
            e,
            caps,
            inputs,
            outputs,
        )
    &&& o.requires_approval == ctx.require_approval
    &&& o.status == (if ctx.require_approval {
        LearningStatus::PendingApproval
    } else {
        LearningStatus::Pending
    })
    &&& o.applied_at is None
}

/// The built-in strategy that turns successful task executions into
/// reusable plan-template learning records.
#[derive(Debug, Clone)]
pub struct ExecutionTemplateStrategy {
    id: LearningRuleId,
    name: String,
}

impl ExecutionTemplateStrategy {
    /// The strategy's name.
    pub closed spec fn name_spec(&self) -> Seq<char> {
        self.name@
    }

    /// The strategy's identifier.
    pub closed spec fn id_spec(&self) -> LearningRuleId {
        self.id
    }

    /// The built-in strategy, named `execution-template`, with a fresh
    /// identifier.
    pub fn new() -> (r: Self)
        ensures
            r.name_spec() == "execution-template"@,
    {
        proof {
            reveal_strlit("execution-template");
        }
        ExecutionTemplateStrategy { id: LearningRuleId::new(), name: owned("execution-template") }
    }

    /// The strategy's identifier.
    pub fn id(&self) -> (r: LearningRuleId)
        ensures
            r == self.id_spec(),
    {
        self.id
    }

    /// The strategy's name, for logging and audit.
    pub fn name(&self) -> (r: &str)
        ensures
            r@ == self.name_spec(),
    {
        self.name.as_str()
    }

    /// The outputs of this strategy always require approval.
    pub fn always_requires_approval(&self) -> (r: bool)
        ensures
            r,
    {
        true
    }

    /// Observe an event: a completed task with a non-empty `task_name` and a
    /// non-empty `output` object yields one plan-template output, any other
    /// event none.
    pub fn observe(&self, event: &LearningEvent, ctx: &LearningContext) -> (r: SwarmResult<Vec<LearningOutput>>)
        ensures
            r is Ok,
            !teaches_template(*event) ==> r->Ok_0@.len() == 0,
            teaches_template(*event) ==> r->Ok_0@.len() == 1 && is_template_output(
                r->Ok_0@[0],
                *event,
                *ctx,
                self.name_spec(),
            ),
    {
        proof {
            reveal_strlit("task_name");
            reveal_strlit("output");
        }
        if !matches!(event.kind, LearningEventKind::TaskCompleted) {
            return Ok(Vec::new());
        }
        let raw = match member_text(&event.payload, "task_name") {
            Some(t) => t,
            None => {
                return Ok(Vec::new());
            },
        };
        let trimmed = trim_str(raw.as_str());
        if trimmed.len() == 0 {
            return Ok(Vec::new());
        }
        let task_name = string_from_chars(trimmed.as_slice());
        let output_keys = sorted_member_keys(&event.payload, "output");
        if output_keys.len() == 0 {
            proof {
                assert(texts(output_keys@).to_set() =~= Set::<Seq<char>>::empty());
            }
            return Ok(Vec::new());
        }
        proof {
            assert(texts(output_keys@)[0] == output_keys@[0]@);
            assert(texts(output_keys@).to_set().contains(output_keys@[0]@));
        }
        let input_keys = sorted_member_keys(&event.payload, "input");
        let capabilities = sorted_member_strings(&event.payload, "required_capabilities");
        let metadata = json_member(&event.payload, "metadata");
        let (provider, personality) = match &metadata {
            Some(m) => (member_text(m, "swarm.provider.name"), member_text(m, "swarm.personality.name")),
            None => (None, None),
        };
        let delta = self.template_delta_document(
            &task_name,
            event,
            &capabilities,
            &input_keys,
            &output_keys,
            provider,
            personality,
        );
        let context = self.context_document(event);
        let mut description = owned("Reusable execution template learned from task '");
        description.append(task_name.as_str());
        description.append("'");
        proof {
            reveal_strlit("Reusable execution template learned from task '");
            reveal_strlit("'");
        }
        let tenant_id = match &event.tenant_id {
            Some(t) => Some(t.clone()),
            None => opt_string_clone(&ctx.tenant_id),
        };
        let status = if ctx.require_approval {
            LearningStatus::PendingApproval
        } else {
            LearningStatus::Pending
        };
        let output = LearningOutput {
            id: LearningRuleId::new(),
            category: LearningCategory::PlanTemplate,
            description,
            scope: ctx.scope.duplicate(),
            agent_id: Some(event.agent_id.clone()),
            tenant_id,
            context,
            delta,
            requires_approval: ctx.require_approval,
            status,
            created_at: now(),
            applied_at: None,
        };
        let mut outputs: Vec<LearningOutput> = Vec::new();
        outputs.push(output);
        proof {
            let o = outputs@[0];
            let caps = texts(capabilities@);
            let inputs = texts(input_keys@);
            let outs = texts(output_keys@);
            assert(template_name(*event) == Some(task_name@));
            assert(o.delta == template_delta(task_name@, *event, caps, inputs, outs));
            assert(strictly_sorted(caps) && caps.to_set() == member_strings(event.payload, "required_capabilities"@).to_set()
                && strictly_sorted(inputs) && inputs.to_set() == member_keys(event.payload, "input"@) && strictly_sorted(outs)
                && outs.to_set() == member_keys(event.payload, "output"@) && o.delta == template_delta(
                task_name@,
                *event,
                caps,
                inputs,
                outs,
            ));
            let name = template_name(*event)->Some_0;
            assert(name == task_name@);
            assert(category_key(o.category) == category_key(LearningCategory::PlanTemplate));
            assert(o.description@ == "Reusable execution template learned from task '"@ + name + "'"@);
            assert(scope_key(o.scope) == scope_key(ctx.scope));
            assert(opt_view(o.agent_id) == Some(event.agent_id@));
            assert(o.context == json_object_of(seq![("strategy"@, json_string_of(self.name_spec())), ("event"@, event_json(*event))]));
            assert(o.status == (if ctx.require_approval {
                LearningStatus::PendingApproval
            } else {
                LearningStatus::Pending
            }));
            assert(is_template_output(o, *event, *ctx, self.name_spec()));
        }
        Ok(outputs)
    }

    /// The delta document of a template.
    fn template_delta_document(
        &self,
        task_name: &String,
        event: &LearningEvent,
        capabilities: &Vec<String>,
        input_keys: &Vec<String>,
        output_keys: &Vec<String>,
        provider: Option<String>,
        personality: Option<String>,
    ) -> (r: serde_json::Value)
        requires
            opt_view(provider) == metadata_text(event.payload, "swarm.provider.name"@),
            opt_view(personality) == metadata_text(event.payload, "swarm.personality.name"@),
        ensures
            r == template_delta(task_name@, *event, texts(capabilities@), texts(input_keys@), texts(output_keys@)),
    {
        proof {
            reveal_strlit("template_name");
            reveal_strlit("source_task_id");
            reveal_strlit("required_capabilities");
            reveal_strlit("input_keys");
            reveal_strlit("output_keys");
            reveal_strlit("provider");
            reveal_strlit("personality");
        }
        let mut members: Vec<(String, serde_json::Value)> = Vec::new();
        members.push((owned("template_name"), json_string(task_name.clone())));
        members.push((owned("source_task_id"), json_opt_string(opt_string_clone(&event.task_id))));
        members.push((owned("required_capabilities"), json_string_list(capabilities)));
        members.push((owned("input_keys"), json_string_list(input_keys)));
        members.push((owned("output_keys"), json_string_list(output_keys)));
        members.push((owned("provider"), json_opt_string(provider)));
        members.push((owned("personality"), json_opt_string(personality)));
        proof {
            assert(member_views(members@) =~= seq![
                ("template_name"@, json_string_of(task_name@)),
                ("source_task_id"@, json_opt_string_of(opt_view(event.task_id))),
                ("required_capabilities"@, string_array(texts(capabilities@))),
                ("input_keys"@, string_array(texts(input_keys@))),
                ("output_keys"@, string_array(texts(output_keys@))),
                ("provider"@, json_opt_string_of(metadata_text(event.payload, "swarm.provider.name"@))),
                ("personality"@, json_opt_string_of(metadata_text(event.payload, "swarm.personality.name"@))),
            ]);
        }
        json_object_from(members)
    }

    /// The review context of a template: the strategy's name and the event.
    fn context_document(&self, event: &LearningEvent) -> (r: serde_json::Value)
        ensures
            r == json_object_of(seq![("strategy"@, json_string_of(self.name_spec())), ("event"@, event_json(*event))]),
    {
        proof {
            reveal_strlit("strategy");
            reveal_strlit("event");
        }
        let mut members: Vec<(String, serde_json::Value)> = Vec::new();
        members.push((owned("strategy"), json_string(self.name.clone())));
        members.push((owned("event"), event_document(event)));
        proof {
            assert(member_views(members@) =~= seq![
                ("strategy"@, json_string_of(self.name_spec())),
                ("event"@, event_json(*event)),
            ]);
        }
        json_object_from(members)
    }

    /// Apply an output: always accepted, with a message naming the strategy
    /// and the output.
    pub fn apply(&self, output: &LearningOutput, ctx: &LearningContext) -> (r: SwarmResult<LearningResult>)
        ensures
            r matches Ok(res) && res.output_id == output.id && res.success && res.message@ == self.name_spec()
                + " accepted output "@ + uuid_hyphenated(output.id@),
    {
        let mut message = self.name.clone();
        message.append(" accepted output ");
        message.append(output.id.to_text().as_str());
        proof {
            reveal_strlit(" accepted output ");
        }
        Ok(LearningResult { output_id: output.id, success: true, message })
    }
}

} // verus!
