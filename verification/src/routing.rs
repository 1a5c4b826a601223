//! The decisions of composed runnables: which branch runs, which fallback
//! is tried next, which route an input takes, and how keyed outputs are
//! picked and merged.
//!
//! The runnables themselves are asynchronous closures held by the
//! application, which awaits them and asks here what to do next.

use crate::errors::ChainError;
use crate::json::{entry_value, JsonKind, JsonNode};
use crate::outputs::copy_value;
use crate::text::str_equal;
use vstd::prelude::*;

verus! {

broadcast use vstd::seq_lib::group_seq_properties;

// ---------------------------------------------------------------------------
// Branching
// ---------------------------------------------------------------------------

/// What a branching runnable does next.
#[derive(Debug, Clone, Copy, PartialEq, Eq, Structural)]
pub enum BranchStep {
    /// Evaluate the condition of this branch.
    TestCondition(usize),
    /// Run this branch on the input.
    RunBranch(usize),
    /// No condition held: run the default runnable.
    RunDefault,
    /// No condition held and there is no default.
    NoMatch,
}

/// What comes when no branch is left to test.
pub open spec fn exhausted_step(has_default: bool) -> BranchStep {
    if has_default {
        BranchStep::RunDefault
    } else {
        BranchStep::NoMatch
    }
}

/// The first step of a runnable with `num_branches` branches.
pub open spec fn start_step(num_branches: usize, has_default: bool) -> BranchStep {
    if num_branches > 0 {
        BranchStep::TestCondition(0)
    } else {
        exhausted_step(has_default)
    }
}

/// The step after the condition of branch `index` was evaluated.
pub open spec fn step_after(index: usize, matched: bool, num_branches: usize, has_default: bool) -> BranchStep {
    if matched {
        BranchStep::RunBranch(index)
    } else if index + 1 < num_branches {
        BranchStep::TestCondition((index + 1) as usize)
    } else {
        exhausted_step(has_default)
    }
}

/// Where the branch machine ends when the conditions evaluate to `conds`,
/// starting with the condition of branch `i`.
pub open spec fn run_branches(conds: Seq<bool>, has_default: bool, i: usize) -> BranchStep
    decreases conds.len() - i,
{
    if conds.len() <= usize::MAX && i < conds.len() {
        match step_after(i, conds[i as int], conds.len() as usize, has_default) {
            BranchStep::TestCondition(j) => run_branches(conds, has_default, j),
            s => s,
        }
    } else {
        BranchStep::TestCondition(i)
    }
}

/// Where the branch machine ends when the conditions evaluate to `conds`.
pub open spec fn driven_branch(conds: Seq<bool>, has_default: bool) -> BranchStep {
    match start_step(conds.len() as usize, has_default) {
        BranchStep::TestCondition(i) => run_branches(conds, has_default, i),
        s => s,
    }
}

/// The first step of a branching runnable.
pub fn branch_start(num_branches: usize, has_default: bool) -> (s: BranchStep)
    ensures
        s == start_step(num_branches, has_default),
{
    if num_branches > 0 {
        BranchStep::TestCondition(0)
    } else if has_default {
        BranchStep::RunDefault
    } else {
        BranchStep::NoMatch
    }
}

/// The step after the condition of branch `index` evaluated to `matched`:
/// run that branch when it held, else test the next one, else fall to the
/// default.
pub fn branch_after_condition(index: usize, matched: bool, num_branches: usize, has_default: bool) -> (s: BranchStep)
    requires
        index < num_branches,
    ensures
        s == step_after(index, matched, num_branches, has_default),
{
    if matched {
        BranchStep::RunBranch(index)
    } else if index + 1 < num_branches {
        BranchStep::TestCondition(index + 1)
    } else if has_default {
        BranchStep::RunDefault
    } else {
        BranchStep::NoMatch
    }
}

/// The runnable branch's error when nothing matched and there is no
/// default: `No branch condition matched and no default runnable set`.
pub fn no_branch_matched() -> (e: ChainError)
    ensures
        e matches ChainError::ValidationError(m) && m@ == "No branch condition matched and no default runnable set"@,
{
    ChainError::ValidationError(String::from_str("No branch condition matched and no default runnable set"))
}

/// The expression-language branch's error when nothing matched and there
/// is no default: `No branch matched and no default provided`.
pub fn no_branch_provided() -> (e: ChainError)
    ensures
        e matches ChainError::PromptError(m) && m@ == "No branch matched and no default provided"@,
{
    ChainError::PromptError(String::from_str("No branch matched and no default provided"))
}

/// Driving the machine from branch `i` on runs the first branch from `i`
/// whose condition holds, else ends as when no branch is left.
proof fn lemma_run_branches(conds: Seq<bool>, has_default: bool, i: usize)
    requires
        conds.len() <= usize::MAX,
        i < conds.len(),
    ensures
        match run_branches(conds, has_default, i) {
            BranchStep::RunBranch(k) => i <= k < conds.len() && conds[k as int] && forall|j: int| i <= j < k ==> !conds[j],
            BranchStep::RunDefault => has_default && forall|j: int| i <= j < conds.len() ==> !conds[j],
            BranchStep::NoMatch => !has_default && forall|j: int| i <= j < conds.len() ==> !conds[j],
            BranchStep::TestCondition(_) => false,
        },
    decreases conds.len() - i,
{
    if !conds[i as int] && i + 1 < conds.len() {
        lemma_run_branches(conds, has_default, (i + 1) as usize);
    }
}

/// A branching runnable runs the first branch whose condition holds; when
/// none holds it runs the default, and without a default it fails.
pub proof fn law_branch_runs_first_match(conds: Seq<bool>, has_default: bool)
    requires
        conds.len() <= usize::MAX,
    ensures
        match driven_branch(conds, has_default) {
            BranchStep::RunBranch(k) => k < conds.len() && conds[k as int] && forall|j: int| 0 <= j < k ==> !conds[j],
            BranchStep::RunDefault => has_default && forall|j: int| 0 <= j < conds.len() ==> !conds[j],
            BranchStep::NoMatch => !has_default && forall|j: int| 0 <= j < conds.len() ==> !conds[j],
            BranchStep::TestCondition(_) => false,
        },
{
    if conds.len() > 0 {
        lemma_run_branches(conds, has_default, 0);
    }
}

// ---------------------------------------------------------------------------
// Fallbacks
// ---------------------------------------------------------------------------

/// What a runnable with fallbacks does after an attempt failed.
#[derive(Debug, Clone, Copy, PartialEq, Eq, Structural)]
pub enum FallbackStep {
    /// Try this fallback next.
    RunFallback(usize),
    /// Every fallback failed too.
    Exhausted,
}

/// The step after failed attempt `failed`, where attempt 0 is the primary
/// runnable and attempt `k + 1` is fallback `k`.
pub open spec fn fallback_step(failed: usize, num_fallbacks: usize) -> FallbackStep {
    if failed < num_fallbacks {
        FallbackStep::RunFallback(failed)
    } else {
        FallbackStep::Exhausted
    }
}

/// After attempt `failed` failed (attempt 0 is the primary runnable,
/// attempt `k + 1` fallback `k`): the next fallback in order, or
/// exhaustion.
pub fn fallback_after_failure(failed: usize, num_fallbacks: usize) -> (s: FallbackStep)
    ensures
        s == fallback_step(failed, num_fallbacks),
{
    if failed < num_fallbacks {
        FallbackStep::RunFallback(failed)
    } else {
        FallbackStep::Exhausted
    }
}

/// Which attempt succeeds first when attempts from `from` on succeed as
/// `ok` says (index 0 the primary, `k + 1` fallback `k`), following the
/// fallback machine; `None` when every one from there fails.
pub open spec fn first_success(ok: Seq<bool>, from: nat) -> Option<nat>
    decreases ok.len() - from,
{
    if from >= ok.len() || ok.len() > usize::MAX {
        None
    } else if ok[from as int] {
        Some(from)
    } else {
        match fallback_step(from as usize, (ok.len() - 1) as usize) {
            FallbackStep::RunFallback(k) => first_success(ok, (k + 1) as nat),
            FallbackStep::Exhausted => None,
        }
    }
}

/// Following the fallback machine from attempt `from`, the first attempt
/// that succeeds is taken, and exhaustion comes only when all fail.
proof fn lemma_first_success(ok: Seq<bool>, from: nat)
    requires
        1 <= ok.len() <= usize::MAX,
    ensures
        match first_success(ok, from) {
            Some(k) => from <= k < ok.len() && ok[k as int] && forall|j: int| from <= j < k ==> !ok[j],
            None => forall|j: int| from <= j < ok.len() ==> !ok[j],
        },
    decreases ok.len() - from,
{
    if from < ok.len() && !ok[from as int] && from + 1 < ok.len() {
        lemma_first_success(ok, from + 1);
    }
}

/// A runnable with fallbacks returns the output of the first attempt (the
/// primary, then each fallback in order) that succeeds; it fails only when
/// every attempt failed.
pub proof fn law_fallbacks_take_first_success(ok: Seq<bool>)
    requires
        1 <= ok.len() <= usize::MAX,
    ensures
        match first_success(ok, 0) {
            Some(k) => k < ok.len() && ok[k as int] && forall|j: int| 0 <= j < k ==> !ok[j],
            None => forall|j: int| 0 <= j < ok.len() ==> !ok[j],
        },
{
    lemma_first_success(ok, 0);
}

/// The expression-language fallbacks' error when every attempt failed:
/// `All fallbacks failed`.
pub fn all_fallbacks_failed() -> (e: ChainError)
    ensures
        e matches ChainError::LLMError(m) && m@ == "All fallbacks failed"@,
{
    ChainError::LLMError(String::from_str("All fallbacks failed"))
}


// ---------------------------------------------------------------------------
// Routing
// ---------------------------------------------------------------------------

/// Which runnable a router runs.
#[derive(Debug, Clone, Copy, PartialEq, Eq, Structural)]
pub enum RouteChoice {
    /// The route with this index.
    Route(usize),
    /// The default runnable.
    Default,
}

/// The label a route value selects: a string's content, any other value's
/// compact JSON text.
pub open spec fn route_label(v: JsonNode) -> Seq<char> {
    match v.kind {
        JsonKind::Str(s) => s@,
        _ => v.text@,
    }
}

/// `Route key '<key>' not found in input`.
pub open spec fn missing_route_key_message(key: Seq<char>) -> Seq<char> {
    "Route key '"@ + key + "' not found in input"@
}

/// `No route found for key '<label>' and no default runnable set`.
pub open spec fn no_route_message(label: Seq<char>) -> Seq<char> {
    "No route found for key '"@ + label + "' and no default runnable set"@
}

/// The label of a route value (see [`route_label`]).
pub fn route_label_of(v: &JsonNode) -> (res: String)
    ensures
        res@ == route_label(*v),
{
    match &v.kind {
        JsonKind::Str(s) => s.clone(),
        _ => v.text.clone(),
    }
}

/// Chooses the runnable for `input`, an object: the route named by the
/// label of its member `route_key`, else the default. Fails when the
/// member is missing, or when no route has that name and there is no
/// default.
pub fn choose_route(route_key: &str, input: &JsonNode, routes: &Vec<String>, has_default: bool) -> (res: Result<RouteChoice, ChainError>)
    ensures
        crate::json::member(*input, route_key@) is None ==> (res matches Err(ChainError::ValidationError(m))
            && m@ == missing_route_key_message(route_key@)),
        crate::json::member(*input, route_key@) matches Some(v) ==> match res {
            Ok(RouteChoice::Route(i)) => i < routes.len() && routes@[i as int]@ == route_label(v)
                && forall|j: int| 0 <= j < i ==> routes@[j]@ != route_label(v),
            Ok(RouteChoice::Default) => has_default && forall|j: int| 0 <= j < routes.len() ==> routes@[j]@ != route_label(v),
            Err(e) => !has_default && (forall|j: int| 0 <= j < routes.len() ==> routes@[j]@ != route_label(v))
                && (e matches ChainError::ValidationError(m) && m@ == no_route_message(route_label(v))),
        },
{
    let value = match input.get(route_key) {
        Some(v) => v,
        None => {
            let mut m = String::from_str("Route key '");
            m.append(route_key);
            m.append("' not found in input");
            return Err(ChainError::ValidationError(m));
        },
    };
    let label = route_label_of(value);
    let mut i: usize = 0;
    while i < routes.len()
        invariant
            i <= routes@.len(),
            label@ == route_label(*value),
            crate::json::member(*input, route_key@) == Some(*value),
            forall|j: int| 0 <= j < i ==> routes@[j]@ != label@,
        decreases routes@.len() - i,
    {
        if str_equal(routes[i].as_str(), label.as_str()) {
            return Ok(RouteChoice::Route(i));
        }
        i += 1;
    }
    if has_default {
        Ok(RouteChoice::Default)
    } else {
        let mut m = String::from_str("No route found for key '");
        m.append(label.as_str());
        m.append("' and no default runnable set");
        Err(ChainError::ValidationError(m))
    }
}

// ---------------------------------------------------------------------------
// Keyed outputs
// ---------------------------------------------------------------------------

/// Whether some entry is named `k`.
pub open spec fn has_key(es: Seq<(String, serde_json::Value)>, k: Seq<char>) -> bool {
    exists|i: int| 0 <= i < es.len() && es[i].0@ == k
}

/// No two entries share a name.
pub open spec fn keys_distinct(es: Seq<(String, serde_json::Value)>) -> bool {
    forall|i: int, j: int| 0 <= i < j < es.len() ==> es[i].0@ != es[j].0@
}

/// The map that entries with distinct names describe.
pub open spec fn entries_map(es: Seq<(String, serde_json::Value)>) -> Map<Seq<char>, serde_json::Value> {
    Map::new(
        |k: Seq<char>| has_key(es, k),
        |k: Seq<char>| es[choose|i: int| 0 <= i < es.len() && es[i].0@ == k].1,
    )
}

/// The members of `input` whose names are among `keys`.
pub open spec fn picked(keys: Seq<String>, input: Map<Seq<char>, serde_json::Value>) -> Map<Seq<char>, serde_json::Value> {
    input.restrict(Set::new(|k: Seq<char>| exists|i: int| 0 <= i < keys.len() && keys[i]@ == k))
}

/// With distinct names, an entry's value is what the map holds under its
/// name.
proof fn lemma_entry_in_map(es: Seq<(String, serde_json::Value)>, j: int)
    requires
        keys_distinct(es),
        0 <= j < es.len(),
    ensures
        entries_map(es).contains_key(es[j].0@),
        entries_map(es)[es[j].0@] == es[j].1,
{
    let k = es[j].0@;
    assert(has_key(es, k));
    let c = choose|i: int| 0 <= i < es.len() && es[i].0@ == k;
    if c != j {
        if c < j {
            assert(es[c].0@ != es[j].0@);
        } else {
            assert(es[j].0@ != es[c].0@);
        }
    }
}

/// The index of the entry named `key`, if any.
fn find_entry(es: &Vec<(String, serde_json::Value)>, key: &str) -> (r: Option<usize>)
    ensures
        match r {
            Some(j) => j < es@.len() && es@[j as int].0@ == key@,
            None => !has_key(es@, key@),
        },
{
    let mut i: usize = 0;
    while i < es.len()
        invariant
            i <= es@.len(),
            forall|j: int| 0 <= j < i ==> es@[j].0@ != key@,
        decreases es@.len() - i,
    {
        if str_equal(es[i].0.as_str(), key) {
            return Some(i);
        }
        i += 1;
    }
    None
}

/// The members of `input` named in `keys` (each once, in the order of
/// `keys`); names missing from `input` are left out.
pub fn pick_entries(keys: &Vec<String>, input: &Vec<(String, serde_json::Value)>) -> (out: Vec<(String, serde_json::Value)>)
    requires
        keys_distinct(input@),
    ensures
        keys_distinct(out@),
        entries_map(out@) == picked(keys@, entries_map(input@)),
{
    let mut out: Vec<(String, serde_json::Value)> = Vec::new();
    let mut i: usize = 0;
    while i < keys.len()
        invariant
            i <= keys@.len(),
            keys_distinct(input@),
            keys_distinct(out@),
            forall|k: Seq<char>| has_key(out@, k) <==> (has_key(input@, k)
                && exists|m: int| 0 <= m < i && (#[trigger] keys@[m])@ == k),
            forall|m: int| 0 <= m < out@.len() ==> (entries_map(input@).contains_key((#[trigger] out@[m]).0@)
                && entries_map(input@)[out@[m].0@] == out@[m].1),
        decreases keys@.len() - i,
    {
        let key = keys[i].as_str();
        let ghost before = out@;
        let already = find_entry(&out, key);
        if already.is_none() {
            match find_entry(input, key) {
                Some(j) => {
                    proof {
                        lemma_entry_in_map(input@, j as int);
                    }
                    let v = copy_value(&input[j].1);
                    out.push((keys[i].clone(), v));
                    proof {
                        assert(out@.last().0@ == keys@[i as int]@);
                        assert forall|a: int, b: int| 0 <= a < b < out@.len() implies out@[a].0@ != out@[b].0@ by {
                            if b == out@.len() - 1 {
                                assert(out@[a] == before[a]);
                                if before[a].0@ == key@ {
                                    assert(has_key(before, key@));
                                }
                            } else {
                                assert(out@[a] == before[a] && out@[b] == before[b]);
                            }
                        }
                        assert forall|k: Seq<char>| has_key(out@, k) <==> (has_key(input@, k)
                            && exists|m: int| 0 <= m < i + 1 && (#[trigger] keys@[m])@ == k) by {
                            if has_key(out@, k) {
                                let a = choose|a: int| 0 <= a < out@.len() && out@[a].0@ == k;
                                if a < before.len() {
                                    assert(out@[a] == before[a]);
                                    assert(has_key(before, k));
                                } else {
                                    assert(keys@[i as int]@ == k);
                                    assert(has_key(input@, k));
                                }
                            }
                            if has_key(input@, k) && exists|m: int| 0 <= m < i + 1 && (#[trigger] keys@[m])@ == k {
                                let m = choose|m: int| 0 <= m < i + 1 && (#[trigger] keys@[m])@ == k;
                                if m < i {
                                    assert(has_key(before, k));
                                    let a = choose|a: int| 0 <= a < before.len() && before[a].0@ == k;
                                    assert(out@[a] == before[a]);
                                } else {
                                    assert(out@[out@.len() - 1].0@ == k);
                                }
                            }
                        }
                        assert forall|m: int| 0 <= m < out@.len() implies (entries_map(input@).contains_key((#[trigger] out@[m]).0@)
                            && entries_map(input@)[out@[m].0@] == out@[m].1) by {
                            if m < before.len() {
                                assert(out@[m] == before[m]);
                            }
                        }
                    }
                },
                None => {
                    proof {
                        assert forall|k: Seq<char>| has_key(out@, k) <==> (has_key(input@, k)
                            && exists|m: int| 0 <= m < i + 1 && (#[trigger] keys@[m])@ == k) by {
                            if has_key(input@, k) && exists|m: int| 0 <= m < i + 1 && (#[trigger] keys@[m])@ == k {
                                let m = choose|m: int| 0 <= m < i + 1 && (#[trigger] keys@[m])@ == k;
                                if m == i {
                                    assert(k == key@);
                                }
                            }
                        }
                    }
                },
            }
        } else {
            proof {
                assert forall|k: Seq<char>| has_key(out@, k) <==> (has_key(input@, k)
                    && exists|m: int| 0 <= m < i + 1 && (#[trigger] keys@[m])@ == k) by {
                    if has_key(out@, k) {
                        assert(exists|m: int| 0 <= m < i && (#[trigger] keys@[m])@ == k);
                        let m = choose|m: int| 0 <= m < i && (#[trigger] keys@[m])@ == k;
                        assert(0 <= m < i + 1 && keys@[m]@ == k);
                    }
                    if has_key(input@, k) && exists|m: int| 0 <= m < i + 1 && (#[trigger] keys@[m])@ == k {
                        let m = choose|m: int| 0 <= m < i + 1 && (#[trigger] keys@[m])@ == k;
                        if m == i {
                            let a = already.unwrap();
                            assert(out@[a as int].0@ == k);
                        } else {
                            assert(exists|m: int| 0 <= m < i && (#[trigger] keys@[m])@ == k);
                        }
                    }
                }
            }
        }
        i += 1;
    }
    proof {
        let want = picked(keys@, entries_map(input@));
        assert forall|k: Seq<char>| entries_map(out@).contains_key(k) <==> want.contains_key(k) by {
            if has_key(out@, k) {
                assert(exists|m: int| 0 <= m < keys@.len() && (#[trigger] keys@[m])@ == k);
            }
            if want.contains_key(k) {
                assert(exists|m: int| 0 <= m < keys@.len() && (#[trigger] keys@[m])@ == k);
            }
        }
        assert forall|k: Seq<char>| #[trigger] entries_map(out@).contains_key(k) implies entries_map(out@)[k] == want[k] by {
            let a = choose|a: int| 0 <= a < out@.len() && out@[a].0@ == k;
            lemma_entry_in_map(out@, a);
            assert(entries_map(input@)[out@[a].0@] == out@[a].1);
        }
        assert(entries_map(out@) =~= want);
    }
    out
}

/// Adding an entry under a new name adds it to the map.
pub(crate) proof fn lemma_entries_push(es: Seq<(String, serde_json::Value)>, e: (String, serde_json::Value))
    requires
        keys_distinct(es),
        !has_key(es, e.0@),
    ensures
        keys_distinct(es.push(e)),
        entries_map(es.push(e)) == entries_map(es).insert(e.0@, e.1),
{
    let t = es.push(e);
    assert forall|a: int, b: int| 0 <= a < b < t.len() implies t[a].0@ != t[b].0@ by {
        if b == es.len() {
            assert(t[a] == es[a]);
        } else {
            assert(t[a] == es[a] && t[b] == es[b]);
        }
    }
    let want = entries_map(es).insert(e.0@, e.1);
    assert forall|k: Seq<char>| entries_map(t).contains_key(k) <==> want.contains_key(k) by {
        if has_key(t, k) {
            let a = choose|a: int| 0 <= a < t.len() && t[a].0@ == k;
            if a < es.len() {
                assert(t[a] == es[a]);
            }
        }
        if has_key(es, k) {
            let a = choose|a: int| 0 <= a < es.len() && es[a].0@ == k;
            assert(t[a] == es[a]);
        }
        if k == e.0@ {
            assert(t[es.len() as int] == e);
        }
    }
    assert forall|k: Seq<char>| #[trigger] entries_map(t).contains_key(k) implies entries_map(t)[k] == want[k] by {
        let a = choose|a: int| 0 <= a < t.len() && t[a].0@ == k;
        lemma_entry_in_map(t, a);
        if a < es.len() {
            assert(t[a] == es[a]);
            lemma_entry_in_map(es, a);
        }
    }
    assert(entries_map(t) =~= want);
}

/// Replacing the entry with a name by another with the same name replaces
/// the value under that name.
proof fn lemma_entries_update(es: Seq<(String, serde_json::Value)>, j: int, e: (String, serde_json::Value))
    requires
        keys_distinct(es),
        0 <= j < es.len(),
        es[j].0@ == e.0@,
    ensures
        keys_distinct(es.update(j, e)),
        entries_map(es.update(j, e)) == entries_map(es).insert(e.0@, e.1),
{
    let t = es.update(j, e);
    assert forall|a: int, b: int| 0 <= a < b < t.len() implies t[a].0@ != t[b].0@ by {
        assert(t[a].0@ == es[a].0@ && t[b].0@ == es[b].0@);
    }
    let want = entries_map(es).insert(e.0@, e.1);
    assert forall|k: Seq<char>| entries_map(t).contains_key(k) <==> want.contains_key(k) by {
        if has_key(t, k) {
            let a = choose|a: int| 0 <= a < t.len() && t[a].0@ == k;
            assert(es[a].0@ == k);
        }
        if has_key(es, k) {
            let a = choose|a: int| 0 <= a < es.len() && es[a].0@ == k;
            assert(t[a].0@ == k);
        }
        if k == e.0@ {
            assert(t[j] == e);
        }
    }
    assert forall|k: Seq<char>| #[trigger] entries_map(t).contains_key(k) implies entries_map(t)[k] == want[k] by {
        let a = choose|a: int| 0 <= a < t.len() && t[a].0@ == k;
        lemma_entry_in_map(t, a);
        if a != j {
            assert(t[a] == es[a]);
            lemma_entry_in_map(es, a);
        }
    }
    assert(entries_map(t) =~= want);
}

/// `input` with the members of `added` put in: a member of `added`
/// replaces one of `input` with the same name, the others are appended.
pub fn assign_entries(input: Vec<(String, serde_json::Value)>, added: &Vec<(String, serde_json::Value)>) -> (out: Vec<(String, serde_json::Value)>)
    requires
        keys_distinct(input@),
        keys_distinct(added@),
    ensures
        keys_distinct(out@),
        entries_map(out@) == entries_map(input@).union_prefer_right(entries_map(added@)),
{
    let mut out = input;
    let ghost base = out@;
    let mut i: usize = 0;
    assert(entries_map(added@.take(0)) =~= Map::<Seq<char>, serde_json::Value>::empty());
    assert(entries_map(base).union_prefer_right(Map::<Seq<char>, serde_json::Value>::empty()) =~= entries_map(base));
    while i < added.len()
        invariant
            i <= added@.len(),
            keys_distinct(added@),
            keys_distinct(out@),
            entries_map(out@) == entries_map(base).union_prefer_right(entries_map(added@.take(i as int))),
        decreases added@.len() - i,
    {
        let e = (added[i].0.clone(), copy_value(&added[i].1));
        assert(e == added@[i as int]);
        let ghost before = out@;
        proof {
            assert(added@.take(i + 1) =~= added@.take(i as int).push(e));
            assert forall|a: int, b: int| 0 <= a < b < added@.take(i as int).len()
                implies added@.take(i as int)[a].0@ != added@.take(i as int)[b].0@ by {}
            assert(!has_key(added@.take(i as int), e.0@)) by {
                if has_key(added@.take(i as int), e.0@) {
                    let a = choose|a: int| 0 <= a < i && added@.take(i as int)[a].0@ == e.0@;
                    assert(added@[a].0@ != added@[i as int].0@);
                }
            }
            lemma_entries_push(added@.take(i as int), e);
        }
        match find_entry(&out, added[i].0.as_str()) {
            Some(j) => {
                out.set(j, e);
                proof {
                    lemma_entries_update(before, j as int, e);
                }
            },
            None => {
                out.push(e);
                proof {
                    lemma_entries_push(before, e);
                }
            },
        }
        proof {
            assert(entries_map(out@) =~= entries_map(base).union_prefer_right(entries_map(added@.take(i + 1))));
        }
        i += 1;
    }
    assert(added@.take(added@.len() as int) =~= added@);
    out
}

} // verus!
