//! What the command line's built-in workers produce: the result document of
//! a processed task, and the tasks and results of the demonstration swarm.

use vstd::prelude::*;
use crate::json::{json_array, json_array_of, json_object_from, json_object_of, json_string, json_string_of, member_views, texts};
use crate::learning::strategy::{lemma_text_lt_irreflexive, lemma_text_lt_total, lemma_text_lt_transitive, text_before, text_lt};
use crate::orchestrator::control::{capability_text, metadata_members};
use crate::task::{Task, TaskSpec};
use crate::text::{decimal_spec, decimal_text, owned};

verus! {

broadcast use vstd::seq_lib::to_multiset_insert;

/// Whether the texts of `s` never decrease.
pub open spec fn ascending(s: Seq<Seq<char>>) -> bool {
    forall|i: int, j: int| 0 <= i < j < s.len() ==> !text_lt(#[trigger] s[j], #[trigger] s[i])
}

/// The texts of `v` in ascending order, equal texts kept.
pub fn sorted_texts(v: Vec<String>) -> (r: Vec<String>)
    ensures
        ascending(texts(r@)),
        texts(r@).to_multiset() == texts(v@).to_multiset(),
{
    let mut out: Vec<String> = Vec::new();
    let n = v.len();
    let mut k: usize = 0;
    proof {
        assert(texts(out@) =~= texts(v@.take(0)));
    }
    while k < n
        invariant
            k <= n == v@.len(),
            ascending(texts(out@)),
            texts(out@).to_multiset() == texts(v@.take(k as int)).to_multiset(),
        decreases n - k,
    {
        let x = v[k].clone();
        let mut p: usize = 0;
        while p < out.len() && !text_before(x.as_str(), out[p].as_str())
            invariant
                p <= out@.len(),
                forall|q: int| 0 <= q < p ==> !text_lt(x@, #[trigger] out@[q]@),
            decreases out@.len() - p,
        {
            p = p + 1;
        }
        let ghost before = out@;
        let ghost tb = texts(before);
        out.insert(p, x);
        proof {
            let t = texts(out@);
            assert(t =~= tb.insert(p as int, x@));
            assert(v@.take(k + 1) =~= v@.take(k as int).push(v@[k as int]));
            assert(texts(v@.take(k + 1)) =~= texts(v@.take(k as int)).insert(k as int, x@));
            assert forall|i: int, j: int| 0 <= i < j < t.len() implies !text_lt(#[trigger] t[j], #[trigger] t[i]) by {
                if j < p {
                    assert(t[i] == tb[i] && t[j] == tb[j]);
                } else if j == p {
                    assert(t[i] == tb[i]);
                    assert(before[i]@ == tb[i]);
                } else if i == p {
                    assert(t[j] == tb[j - 1]);
                    // x comes before tb[p], which never exceeds tb[j - 1].
                    assert(text_lt(x@, tb[p as int]));
                    if j - 1 > p {
                        assert(!text_lt(tb[j - 1], tb[p as int]));
                        if text_lt(tb[j - 1], x@) {
                            lemma_text_lt_transitive(tb[j - 1], x@, tb[p as int]);
                        }
                    } else {
                        if text_lt(tb[p as int], x@) {
                            lemma_text_lt_transitive(x@, tb[p as int], x@);
                            lemma_text_lt_irreflexive(x@);
                        }
                    }
                } else if i < p {
                    assert(t[i] == tb[i] && t[j] == tb[j - 1]);
                    assert(before[i]@ == tb[i]);
                    assert(!text_lt(x@, tb[i]));
                    if p < before.len() {
                        assert(text_lt(x@, tb[p as int]));
                        if tb[i] != x@ {
                            lemma_text_lt_total(tb[i], x@);
                        }
                        if j - 1 > p {
                            assert(!text_lt(tb[j - 1], tb[p as int]));
                        }
                        if text_lt(tb[j - 1], tb[i]) {
                            if j - 1 == p {
                                if tb[i] == x@ {
                                    lemma_text_lt_transitive(x@, tb[p as int], x@);
                                    lemma_text_lt_irreflexive(x@);
                                } else {
                                    lemma_text_lt_transitive(tb[i], x@, tb[p as int]);
                                    lemma_text_lt_transitive(tb[p as int], tb[i], tb[p as int]);
                                    lemma_text_lt_irreflexive(tb[p as int]);
                                }
                            } else {
                                if tb[i] == x@ {
                                    lemma_text_lt_transitive(tb[j - 1], x@, tb[p as int]);
                                } else {
                                    lemma_text_lt_transitive(tb[j - 1], tb[i], x@);
                                    lemma_text_lt_transitive(tb[j - 1], x@, tb[p as int]);
                                }
                            }
                        }
                    }
                } else {
                    assert(t[i] == tb[i - 1] && t[j] == tb[j - 1]);
                }
            }
        }
        k = k + 1;
    }
    proof {
        assert(v@.take(n as int) =~= v@);
    }
    out
}

/// The result document of the command line's built-in worker: the worker's
/// name, the task's name, input and metadata, its required capabilities in
/// ascending order, and the status `completed`.
pub open spec fn worker_document(worker: Seq<char>, spec: TaskSpec, capabilities: Seq<Seq<char>>) -> serde_json::Value {
    json_object_of(
        seq![
            ("worker"@, json_string_of(worker)),
            ("task"@, json_string_of(spec.name@)),
            ("input"@, spec.input),
            ("metadata"@, json_object_of(metadata_members(spec.metadata.entry_list()))),
            ("required_capabilities"@, json_array_of(capabilities.map_values(|c: Seq<char>| json_string_of(c)))),
            ("status"@, json_string_of("completed"@)),
        ],
    )
}

/// The capability texts a task requires.
pub open spec fn required_texts(spec: TaskSpec) -> Seq<Seq<char>> {
    spec.required_capabilities@.map_values(|c: crate::capability::CapabilityView| capability_text(c))
}

/// The result of the built-in worker for a task.
pub fn builtin_worker_output(worker: &str, task: &Task) -> (r: serde_json::Value)
    ensures
        exists|caps: Seq<Seq<char>>|
            ascending(caps) && caps.to_multiset() == required_texts(task.spec).to_multiset() && r == worker_document(
                worker@,
                task.spec,
                caps,
            ),
{
    let caps = task.spec.required_capabilities.as_slice();
    let mut names: Vec<String> = Vec::new();
    let mut i: usize = 0;
    while i < caps.len()
        invariant
            i <= caps@.len(),
            crate::capability::caps_view(caps@) == task.spec.required_capabilities@,
            texts(names@) == required_texts(task.spec).take(i as int),
        decreases caps@.len() - i,
    {
        let text = caps[i].to_text();
        let ghost prior = names@;
        proof {
            assert(text@ == capability_text(caps@[i as int]@));
            assert(required_texts(task.spec)[i as int] == capability_text(caps@[i as int]@));
        }
        names.push(text);
        proof {
            assert(texts(names@) =~= texts(prior).push(text@));
            assert(required_texts(task.spec).take(i + 1) =~= required_texts(task.spec).take(i as int).push(
                required_texts(task.spec)[i as int],
            ));
        }
        i = i + 1;
    }
    proof {
        assert(required_texts(task.spec).take(caps@.len() as int) =~= required_texts(task.spec));
    }
    let sorted = sorted_texts(names);
    let ghost caps_sorted = texts(sorted@);
    let mut items: Vec<serde_json::Value> = Vec::new();
    let mut j: usize = 0;
    while j < sorted.len()
        invariant
            j <= sorted@.len(),
            items@ == texts(sorted@).take(j as int).map_values(|c: Seq<char>| json_string_of(c)),
        decreases sorted@.len() - j,
    {
        items.push(json_string(sorted[j].clone()));
        proof {
            assert(items@ =~= texts(sorted@).take(j + 1).map_values(|c: Seq<char>| json_string_of(c)));
        }
        j = j + 1;
    }
    proof {
        assert(texts(sorted@).take(sorted@.len() as int) =~= texts(sorted@));
    }
    let entries = task.spec.metadata.entries();
    let mut members: Vec<(String, serde_json::Value)> = Vec::new();
    let mut m: usize = 0;
    while m < entries.len()
        invariant
            m <= entries@.len(),
            entries@ == task.spec.metadata.entry_list(),
            member_views(members@) == metadata_members(entries@.take(m as int)),
        decreases entries@.len() - m,
    {
        let key = entries[m].0.clone();
        let text = entries[m].1.clone();
        assert(key@ == entries@[m as int].0@);
        assert(text@ == entries@[m as int].1@);
        let value = json_string(text);
        let ghost prior = members@;
        members.push((key, value));
        proof {
            assert(member_views(members@) =~= member_views(prior).push((key@, value)));
            assert(entries@.take(m + 1) =~= entries@.take(m as int).push(entries@[m as int]));
            assert(metadata_members(entries@.take(m + 1)) =~= metadata_members(entries@.take(m as int)).push(
                (entries@[m as int].0@, json_string_of(entries@[m as int].1@)),
            ));
        }
        m = m + 1;
    }
    proof {
        assert(entries@.take(entries@.len() as int) =~= entries@);
    }
    let mut doc: Vec<(String, serde_json::Value)> = Vec::new();
    doc.push((owned("worker"), json_string(owned(worker))));
    doc.push((owned("task"), json_string(task.spec.name.clone())));
    doc.push((owned("input"), task.spec.input.clone()));
    doc.push((owned("metadata"), json_object_from(members)));
    doc.push((owned("required_capabilities"), json_array(items)));
    doc.push((owned("status"), json_string(owned("completed"))));
    proof {
        reveal_strlit("worker");
        reveal_strlit("task");
        reveal_strlit("input");
        reveal_strlit("metadata");
        reveal_strlit("required_capabilities");
        reveal_strlit("status");
        reveal_strlit("completed");
        assert(member_views(doc@) =~= seq![
            ("worker"@, json_string_of(worker@)),
            ("task"@, json_string_of(task.spec.name@)),
            ("input"@, task.spec.input),
            ("metadata"@, json_object_of(metadata_members(task.spec.metadata.entry_list()))),
            ("required_capabilities"@, json_array_of(caps_sorted.map_values(|c: Seq<char>| json_string_of(c)))),
            ("status"@, json_string_of("completed"@)),
        ]);
    }
    json_object_from(doc)
}

/// The result document of the demonstration swarm's echo worker: the
/// agent's name, the task's name and the task's input echoed back.
pub open spec fn echo_document(agent: Seq<char>, spec: TaskSpec) -> serde_json::Value {
    json_object_of(
        seq![("agent"@, json_string_of(agent)), ("task"@, json_string_of(spec.name@)), ("echo"@, spec.input)],
    )
}

/// The result of the demonstration swarm's echo worker for a task.
pub fn echo_worker_output(agent: &str, task: &Task) -> (r: serde_json::Value)
    ensures
        r == echo_document(agent@, task.spec),
{
    let mut doc: Vec<(String, serde_json::Value)> = Vec::new();
    doc.push((owned("agent"), json_string(owned(agent))));
    doc.push((owned("task"), json_string(task.spec.name.clone())));
    doc.push((owned("echo"), task.spec.input.clone()));
    proof {
        reveal_strlit("agent");
        reveal_strlit("task");
        reveal_strlit("echo");
        assert(member_views(doc@) =~= seq![
            ("agent"@, json_string_of(agent@)),
            ("task"@, json_string_of(task.spec.name@)),
            ("echo"@, task.spec.input),
        ]);
    }
    json_object_from(doc)
}

/// The `i`-th task of the demonstration swarm: named `task-<i>`, with the
/// message `Hello from task <i>` as its input.
pub fn demo_task_spec(i: u64) -> (r: TaskSpec)
    ensures
        r.name@ == "task-"@ + decimal_spec(i as nat),
        r.input == json_object_of(seq![("message"@, json_string_of("Hello from task "@ + decimal_spec(i as nat)))]),
        r.priority == crate::task::TaskPriority::Normal,
        r.required_capabilities@.len() == 0,
{
    let mut name = owned("task-");
    name.append(decimal_text(i).as_str());
    let mut message = owned("Hello from task ");
    message.append(decimal_text(i).as_str());
    let mut members: Vec<(String, serde_json::Value)> = Vec::new();
    members.push((owned("message"), json_string(message)));
    proof {
        reveal_strlit("task-");
        reveal_strlit("Hello from task ");
        reveal_strlit("message");
        assert(member_views(members@) =~= seq![("message"@, json_string_of("Hello from task "@ + decimal_spec(i as nat)))]);
    }
    TaskSpec::new(name.as_str(), json_object_from(members))
}

} // verus!
