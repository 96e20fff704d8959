//! Cutting the pending operations of a device into events: operations that
//! belong together (the same entity, or an entity and what it refers to)
//! travel in one event, and no event exceeds the size limit.
use vstd::prelude::*;

use super::operations::{final_action, same_entity, OperationAction, SyncOperation};
use super::SyncError;
use crate::json::{get_member, member, JsonValue};
use crate::text::{owned, str_eq};

verus! {

pub open spec fn entity_of(op: SyncOperation) -> (Seq<char>, Seq<char>) {
    (op.entity_type@, op.entity_id@)
}

/// A reference read from a changed field when packing: absent or `null`
/// is none, a non-empty string names the entity; `None` means the field is
/// malformed.
pub open spec fn pack_dependency_value(op: SyncOperation, field: Seq<char>) -> Option<Option<Seq<char>>> {
    match member(op.changed_fields@, field) {
        None => Some(None),
        Some(JsonValue::Null) => Some(None),
        Some(JsonValue::Str(s)) => if s@.len() > 0 {
            Some(Some(s@))
        } else {
            None
        },
        Some(_) => None,
    }
}

pub open spec fn opt_text(o: Option<String>) -> Option<Seq<char>> {
    match o {
        Some(s) => Some(s@),
        None => None,
    }
}

/// The entity an upsert must travel with: a case's judge, or a contact's
/// case (its `case_id` field, else the case the operation is filed under);
/// `None` when the reference is malformed.
pub open spec fn pack_dependency(op: SyncOperation) -> Option<Option<(Seq<char>, Seq<char>)>> {
    if op.action != OperationAction::Upsert {
        Some(None)
    } else if op.entity_type@ == "case"@ {
        match pack_dependency_value(op, "judge_id"@) {
            None => None,
            Some(None) => Some(None),
            Some(Some(v)) => Some(Some(("contact"@, v))),
        }
    } else if op.entity_type@ == "contact"@ {
        match pack_dependency_value(op, "case_id"@) {
            None => None,
            Some(v) => match (
                match v {
                    Some(x) => Some(x),
                    None => opt_text(op.case_id),
                }
            ) {
                Some(x) => Some(Some(("case"@, x))),
                None => Some(None),
            },
        }
    } else {
        Some(None)
    }
}

/// Two operations of the batch must travel together: they are on the same
/// entity, or one refers to the other's entity.
pub open spec fn linked(ops: Seq<SyncOperation>, i: int, j: int) -> bool {
    same_entity(ops[i], ops[j]) || pack_dependency(ops[i]) == Some(Some(entity_of(ops[j])))
        || pack_dependency(ops[j]) == Some(Some(entity_of(ops[i])))
}

pub open spec fn is_path(ops: Seq<SyncOperation>, p: Seq<int>) -> bool {
    &&& p.len() >= 1
    &&& forall|k: int| 0 <= k < p.len() ==> 0 <= #[trigger] p[k] < ops.len()
    &&& forall|k: int| 0 <= k < p.len() - 1 ==> #[trigger] linked(ops, p[k], p[k + 1])
}

/// Operations `i` and `j` are joined by a chain of links.
pub open spec fn connected(ops: Seq<SyncOperation>, i: int, j: int) -> bool {
    exists|p: Seq<int>| #[trigger] is_path(ops, p) && p[0] == i && p.last() == j
}

pub proof fn lemma_connected_refl(ops: Seq<SyncOperation>, i: int)
    requires
        0 <= i < ops.len(),
    ensures
        connected(ops, i, i),
{
    let p = seq![i];
    assert(is_path(ops, p));
}

pub proof fn lemma_connected_extend(ops: Seq<SyncOperation>, a: int, u: int, v: int)
    requires
        connected(ops, a, u),
        0 <= v < ops.len(),
        linked(ops, u, v),
    ensures
        connected(ops, a, v),
{
    let p = choose|p: Seq<int>| #[trigger] is_path(ops, p) && p[0] == a && p.last() == u;
    let q = p.push(v);
    assert forall|k: int| 0 <= k < q.len() - 1 implies #[trigger] linked(ops, q[k], q[k + 1]) by {
        if k < p.len() - 1 {
            assert(q[k] == p[k] && q[k + 1] == p[k + 1]);
            assert(linked(ops, p[k], p[k + 1]));
        }
    }
    assert forall|k: int| 0 <= k < q.len() implies 0 <= #[trigger] q[k] < ops.len() by {
        if k < p.len() {
            assert(q[k] == p[k]);
        }
    }
    assert(is_path(ops, q));
}

pub proof fn lemma_connected_trans(ops: Seq<SyncOperation>, i: int, j: int, k: int)
    requires
        connected(ops, i, j),
        connected(ops, j, k),
    ensures
        connected(ops, i, k),
{
    let p = choose|p: Seq<int>| #[trigger] is_path(ops, p) && p[0] == i && p.last() == j;
    let q = choose|q: Seq<int>| #[trigger] is_path(ops, q) && q[0] == j && q.last() == k;
    let r = p + q.drop_first();
    assert forall|x: int| 0 <= x < r.len() implies 0 <= #[trigger] r[x] < ops.len() by {
        if x < p.len() {
            assert(r[x] == p[x]);
        } else {
            assert(r[x] == q[x - p.len() + 1]);
        }
    }
    assert forall|x: int| 0 <= x < r.len() - 1 implies #[trigger] linked(ops, r[x], r[x + 1]) by {
        if x < p.len() - 1 {
            assert(r[x] == p[x] && r[x + 1] == p[x + 1]);
            assert(linked(ops, p[x], p[x + 1]));
        } else if x == p.len() - 1 {
            assert(r[x] == q[0]);
            assert(r[x + 1] == q[1]);
            assert(linked(ops, q[0], q[1]));
        } else {
            let y = x - p.len() + 1;
            assert(r[x] == q[y] && r[x + 1] == q[y + 1]);
            assert(linked(ops, q[y], q[y + 1]));
        }
    }
    assert(is_path(ops, r));
    if q.len() == 1 {
        assert(r =~= p);
    }
}

/// A set of positions closed under links contains everything connected to
/// any of its members.
pub proof fn lemma_closed_contains_connected(ops: Seq<SyncOperation>, s: Seq<bool>, a: int, j: int)
    requires
        s.len() == ops.len(),
        0 <= a < ops.len(),
        s[a],
        forall|u: int, v: int| 0 <= u < ops.len() && 0 <= v < ops.len() && s[u] && #[trigger] linked(ops, u, v) ==> s[v],
        connected(ops, a, j),
    ensures
        s[j],
{
    let p = choose|p: Seq<int>| #[trigger] is_path(ops, p) && p[0] == a && p.last() == j;
    assert forall|k: int| 0 <= k < p.len() implies s[#[trigger] p[k]] by {
        lemma_path_prefix_in(ops, s, p, k);
    }
}

proof fn lemma_path_prefix_in(ops: Seq<SyncOperation>, s: Seq<bool>, p: Seq<int>, k: int)
    requires
        s.len() == ops.len(),
        is_path(ops, p),
        s[p[0]],
        forall|u: int, v: int| 0 <= u < ops.len() && 0 <= v < ops.len() && s[u] && #[trigger] linked(ops, u, v) ==> s[v],
        0 <= k < p.len(),
    ensures
        s[p[k]],
    decreases k,
{
    if k > 0 {
        let m = k - 1;
        lemma_path_prefix_in(ops, s, p, m);
        assert(0 <= m < p.len() - 1);
        assert(linked(ops, p[m], p[m + 1]));
        assert(p[m + 1] == p[k]);
    }
}


pub open spec fn pair_view(d: Option<(String, String)>) -> Option<(Seq<char>, Seq<char>)> {
    match d {
        Some((a, b)) => Some((a@, b@)),
        None => None,
    }
}

fn pack_dependency_exec(op: &SyncOperation) -> (r: Result<Option<(String, String)>, SyncError>)
    ensures
        match pack_dependency(*op) {
            Some(d) => r matches Ok(x) && pair_view(x) == d,
            None => r matches Err(SyncError::Protocol(m)) && m@ == "invalid package dependency field"@,
        },
{
    proof {
        reveal_strlit("case");
        reveal_strlit("contact");
        assert("case"@.len() != "contact"@.len());
    }
    if op.action != OperationAction::Upsert {
        return Ok(None);
    }
    let (field, target) = if str_eq(op.entity_type.as_str(), "case") {
        ("judge_id", "contact")
    } else if str_eq(op.entity_type.as_str(), "contact") {
        ("case_id", "case")
    } else {
        return Ok(None);
    };
    let value: Option<String> = match get_member(&op.changed_fields, field) {
        None => None,
        Some(JsonValue::Null) => None,
        Some(JsonValue::Str(s)) => {
            if s.as_str().is_empty() {
                return Err(SyncError::Protocol(owned("invalid package dependency field")));
            }
            Some(s.clone())
        },
        Some(_) => return Err(SyncError::Protocol(owned("invalid package dependency field"))),
    };
    let chosen = if str_eq(target, "case") {
        match value {
            Some(v) => Some(v),
            None => match &op.case_id {
                Some(c) => Some(c.clone()),
                None => None,
            },
        }
    } else {
        value
    };
    match chosen {
        Some(v) => Ok(Some((owned(target), v))),
        None => Ok(None),
    }
}

/// The dependencies of the batch, one per operation.
pub open spec fn deps_match(ops: Seq<SyncOperation>, deps: Seq<Option<(String, String)>>) -> bool {
    &&& deps.len() == ops.len()
    &&& forall|i: int| 0 <= i < ops.len() ==> pack_dependency(#[trigger] ops[i]) == Some(pair_view(deps[i]))
}

/// An operation's entity, as the pair (type, id).
pub open spec fn entity_pair(e: (String, String)) -> (Seq<char>, Seq<char>) {
    (e.0@, e.1@)
}

/// The entities of the batch, one per operation.
pub open spec fn ents_match(ops: Seq<SyncOperation>, ents: Seq<(String, String)>) -> bool {
    &&& ents.len() == ops.len()
    &&& forall|i: int| 0 <= i < ops.len() ==> entity_pair(#[trigger] ents[i]) == entity_of(ops[i])
}

fn pair_is(d: &Option<(String, String)>, e: &(String, String)) -> (r: bool)
    ensures
        r == (pair_view(*d) == Some(entity_pair(*e))),
{
    match d {
        Some((a, b)) => str_eq(a.as_str(), e.0.as_str()) && str_eq(b.as_str(), e.1.as_str()),
        None => false,
    }
}

fn linked_exec(
    ops: Ghost<Seq<SyncOperation>>,
    ents: &Vec<(String, String)>,
    deps: &Vec<Option<(String, String)>>,
    i: usize,
    j: usize,
) -> (r: bool)
    requires
        deps_match(ops@, deps@),
        ents_match(ops@, ents@),
        i < ents.len(),
        j < ents.len(),
    ensures
        r == linked(ops@, i as int, j as int),
{
    proof {
        assert(pack_dependency(ops@[i as int]) == Some(pair_view(deps@[i as int])));
        assert(pack_dependency(ops@[j as int]) == Some(pair_view(deps@[j as int])));
        assert(entity_pair(ents@[i as int]) == entity_of(ops@[i as int]));
        assert(entity_pair(ents@[j as int]) == entity_of(ops@[j as int]));
    }
    let same = str_eq(ents[i].0.as_str(), ents[j].0.as_str()) && str_eq(ents[i].1.as_str(), ents[j].1.as_str());
    same || pair_is(&deps[i], &ents[j]) || pair_is(&deps[j], &ents[i])
}

pub open spec fn count_false(s: Seq<bool>) -> nat
    decreases s.len(),
{
    if s.len() == 0 {
        0
    } else {
        count_false(s.drop_last()) + if !s.last() {
            1nat
        } else {
            0nat
        }
    }
}

proof fn lemma_count_false_set(s: Seq<bool>, v: int)
    requires
        0 <= v < s.len(),
        !s[v],
    ensures
        count_false(s.update(v, true)) + 1 == count_false(s),
    decreases s.len(),
{
    if v < s.len() - 1 {
        lemma_count_false_set(s.drop_last(), v);
        assert(s.update(v, true).drop_last() =~= s.drop_last().update(v, true));
    } else {
        assert(s.update(v, true).drop_last() =~= s.drop_last());
    }
}

/// The operations connected to `root`, as flags.
fn component_of(
    ops: Ghost<Seq<SyncOperation>>,
    ents: &Vec<(String, String)>,
    deps: &Vec<Option<(String, String)>>,
    root: usize,
) -> (r: Vec<bool>)
    requires
        deps_match(ops@, deps@),
                ents_match(ops@, ents@),
        ents_match(ops@, ents@),
        root < ents.len(),
    ensures
        r@.len() == ops@.len(),
        forall|v: int| 0 <= v < ops@.len() ==> (r@[v] <==> connected(ops@, root as int, v)),
{
    let n = ents.len();
    let mut visited: Vec<bool> = Vec::new();
    let mut i: usize = 0;
    while i < n
        invariant
            n == ops@.len(),
            n == ents.len(),
            i <= n,
            visited@.len() == i,
            forall|v: int| 0 <= v < i ==> visited@[v] == (v == root),
        decreases n - i,
    {
        visited.push(i == root);
        i = i + 1;
    }
    let mut worklist: Vec<usize> = Vec::new();
    worklist.push(root);
    proof {
        assert(worklist@[0] == root);
        assert(worklist@.contains(root));
        lemma_connected_refl(ops@, root as int);
        assert(count_false(visited@) < n) by {
            lemma_count_false_bound(visited@, root as int);
        }
    }
    while worklist.len() > 0
        invariant
            n == ops@.len(),
            n == ents.len(),
            deps_match(ops@, deps@),
                ents_match(ops@, ents@),
            root < n,
            visited@.len() == n,
            visited@[root as int],
            forall|v: int| 0 <= v < n && visited@[v] ==> connected(ops@, root as int, v),
            worklist@.no_duplicates(),
            forall|k: int| 0 <= k < worklist@.len() ==> (#[trigger] worklist@[k]) < n && visited@[worklist@[k] as int],
            forall|u: int, v: int|
                0 <= u < n && 0 <= v < n && visited@[u] && !worklist@.contains(u as usize) && #[trigger] linked(
                    ops@,
                    u,
                    v,
                ) ==> visited@[v],
        decreases 2 * count_false(visited@) + worklist@.len(),
    {
        let ghost w0 = worklist@;
        let ghost vis0 = visited@;
        let u = worklist.pop().unwrap();
        proof {
            assert(worklist@ =~= w0.drop_last());
            assert(u == w0.last());
            assert(!worklist@.contains(u)) by {
                if worklist@.contains(u) {
                    let k = choose|k: int| 0 <= k < worklist@.len() && worklist@[k] == u;
                    assert(w0[k] == w0[w0.len() - 1]);
                }
            }
            assert forall|a: int, b: int|
                0 <= a < n && 0 <= b < n && a != u && visited@[a] && !worklist@.contains(a as usize) && #[trigger] linked(
                    ops@,
                    a,
                    b,
                ) implies visited@[b] by {
                if w0.contains(a as usize) {
                    let k = choose|k: int| 0 <= k < w0.len() && w0[k] == a as usize;
                    if k < w0.len() - 1 {
                        assert(worklist@[k] == a as usize);
                    }
                }
            }
        }
        let mut v: usize = 0;
        while v < n
            invariant
                n == ops@.len(),
            n == ents.len(),
                deps_match(ops@, deps@),
                ents_match(ops@, ents@),
                root < n,
                u < n,
                v <= n,
                visited@.len() == n,
                visited@[root as int],
                visited@[u as int],
                !worklist@.contains(u),
                forall|x: int| 0 <= x < n && visited@[x] ==> connected(ops@, root as int, x),
                worklist@.no_duplicates(),
                forall|k: int| 0 <= k < worklist@.len() ==> (#[trigger] worklist@[k]) < n && visited@[worklist@[k] as int],
                forall|a: int, b: int|
                    0 <= a < n && 0 <= b < n && a != u && visited@[a] && !worklist@.contains(a as usize) && #[trigger] linked(
                        ops@,
                        a,
                        b,
                    ) ==> visited@[b],
                forall|b: int| 0 <= b < v && #[trigger] linked(ops@, u as int, b) ==> visited@[b],
                2 * count_false(visited@) + worklist@.len() + 1 <= 2 * count_false(vis0) + w0.len(),
            decreases n - v,
        {
            if !visited[v] && linked_exec(ops, ents, deps, u, v) {
                proof {
                    lemma_connected_extend(ops@, root as int, u as int, v as int);
                    lemma_count_false_set(visited@, v as int);
                }
                let ghost before_w = worklist@;
                let ghost before_v = visited@;
                visited.set(v, true);
                worklist.push(v);
                proof {
                    assert(worklist@ == before_w.push(v));
                    assert(worklist@[before_w.len() as int] == v);
                    assert(worklist@.contains(v));
                    assert forall|k: int| 0 <= k < before_w.len() implies before_w[k] != v by {
                        assert(visited@[before_w[k] as int]);
                    }
                    assert(worklist@.no_duplicates());
                    assert forall|a: int| 0 <= a < n && !#[trigger] worklist@.contains(a as usize) implies !before_w.contains(a as usize) by {
                        if before_w.contains(a as usize) {
                            let k = choose|k: int| 0 <= k < before_w.len() && before_w[k] == a as usize;
                            assert(worklist@[k] == a as usize);
                        }
                    }
                }
            }
            v = v + 1;
        }
    }
    proof {
        assert forall|x: int| 0 <= x < n implies (visited@[x] <==> connected(ops@, root as int, x)) by {
            if connected(ops@, root as int, x) {
                lemma_closed_contains_connected(ops@, visited@, root as int, x);
            }
        }
    }
    visited
}

proof fn lemma_count_false_bound(s: Seq<bool>, t: int)
    requires
        0 <= t < s.len(),
        s[t],
    ensures
        count_false(s) < s.len(),
    decreases s.len(),
{
    lemma_count_false_le(s.drop_last());
    if t < s.len() - 1 {
        lemma_count_false_bound(s.drop_last(), t);
    }
}

proof fn lemma_count_false_le(s: Seq<bool>)
    ensures
        count_false(s) <= s.len(),
    decreases s.len(),
{
    if s.len() > 0 {
        lemma_count_false_le(s.drop_last());
    }
}


pub open spec fn has_entity(ops: Seq<SyncOperation>, d: (Seq<char>, Seq<char>)) -> bool {
    exists|j: int| 0 <= j < ops.len() && entity_of(#[trigger] ops[j]) == d
}

pub open spec fn hist_has(hist: Seq<(String, String)>, d: (Seq<char>, Seq<char>)) -> bool {
    exists|k: int| 0 <= k < hist.len() && (#[trigger] hist[k]).0@ == d.0 && hist[k].1@ == d.1
}

/// The reference of `op` can travel with `batch`: it is well formed, and
/// an entity it names is upserted last in the batch or, when the batch does
/// not touch it, was exported before.
pub open spec fn reference_ok(batch: Seq<SyncOperation>, hist: Seq<(String, String)>, op: SyncOperation) -> bool {
    match pack_dependency(op) {
        None => false,
        Some(None) => true,
        Some(Some(d)) => if has_entity(batch, d) {
            final_action(batch, d) == Some(OperationAction::Upsert)
        } else {
            hist_has(hist, d)
        },
    }
}

/// The error for an operation whose reference cannot travel.
pub open spec fn reference_error(batch: Seq<SyncOperation>, hist: Seq<(String, String)>, op: SyncOperation, e: SyncError) -> bool {
    match pack_dependency(op) {
        None => e matches SyncError::Protocol(m) && m@ == "invalid package dependency field"@,
        Some(None) => false,
        Some(Some(d)) => if has_entity(batch, d) {
            e is PackageDependencyConflict
        } else {
            e is PackageDependencyMissing
        },
    }
}

proof fn lemma_final_action_none(ops: Seq<SyncOperation>, d: (Seq<char>, Seq<char>))
    ensures
        final_action(ops, d) is None <==> !has_entity(ops, d),
    decreases ops.len(),
{
    if ops.len() > 0 {
        lemma_final_action_none(ops.drop_last(), d);
        if has_entity(ops.drop_last(), d) {
            let j = choose|j: int| 0 <= j < ops.drop_last().len() && entity_of(#[trigger] ops.drop_last()[j]) == d;
            assert(entity_of(ops[j]) == d);
        }
        if has_entity(ops, d) && !(ops.last().entity_type@ == d.0 && ops.last().entity_id@ == d.1) {
            let j = choose|j: int| 0 <= j < ops.len() && entity_of(#[trigger] ops[j]) == d;
            assert(j < ops.len() - 1);
            assert(entity_of(ops.drop_last()[j]) == d);
        }
        if ops.last().entity_type@ == d.0 && ops.last().entity_id@ == d.1 {
            assert(entity_of(ops[ops.len() - 1]) == d);
        }
    }
}

/// The first operation of its group: nothing earlier is connected to it.
pub open spec fn is_root(ops: Seq<SyncOperation>, r: int) -> bool {
    0 <= r < ops.len() && forall|j: int| 0 <= j < r ==> !#[trigger] connected(ops, j, r)
}

pub open spec fn roots_upto(ops: Seq<SyncOperation>, k: int) -> Seq<int>
    decreases k,
{
    if k <= 0 {
        Seq::empty()
    } else {
        let rest = roots_upto(ops, k - 1);
        if is_root(ops, k - 1) {
            rest.push(k - 1)
        } else {
            rest
        }
    }
}

pub open spec fn members_upto(ops: Seq<SyncOperation>, r: int, k: int) -> Seq<int>
    decreases k,
{
    if k <= 0 {
        Seq::empty()
    } else {
        let rest = members_upto(ops, r, k - 1);
        if connected(ops, r, k - 1) {
            rest.push(k - 1)
        } else {
            rest
        }
    }
}

/// The groups of operations that must travel together, ordered by their
/// first operation, each in batch order.
pub open spec fn components(ops: Seq<SyncOperation>) -> Seq<Seq<int>> {
    roots_upto(ops, ops.len() as int).map_values(|r: int| members_upto(ops, r, ops.len() as int))
}

/// Greedy packing: a group joins the current event unless that would take
/// a non-empty event past the limit, in which case the event is closed.
pub open spec fn pack_step(state: (Seq<Seq<int>>, Seq<int>), comp: Seq<int>, max: nat) -> (Seq<Seq<int>>, Seq<int>) {
    if state.1.len() > 0 && state.1.len() + comp.len() > max {
        (state.0.push(state.1), comp)
    } else {
        (state.0, state.1 + comp)
    }
}

pub open spec fn pack_fold(comps: Seq<Seq<int>>, max: nat, k: int) -> (Seq<Seq<int>>, Seq<int>)
    decreases k,
{
    if k <= 0 {
        (Seq::empty(), Seq::empty())
    } else {
        pack_step(pack_fold(comps, max, k - 1), comps[k - 1], max)
    }
}

pub open spec fn packed(comps: Seq<Seq<int>>, max: nat) -> Seq<Seq<int>> {
    let s = pack_fold(comps, max, comps.len() as int);
    if s.1.len() > 0 {
        s.0.push(s.1)
    } else {
        s.0
    }
}

pub open spec fn ints(v: Seq<usize>) -> Seq<int> {
    v.map_values(|x: usize| x as int)
}

pub open spec fn packages_view(p: Seq<Vec<usize>>) -> Seq<Seq<int>> {
    p.map_values(|v: Vec<usize>| ints(v@))
}

fn hist_contains(hist: &Vec<(String, String)>, t: &str, id: &str) -> (r: bool)
    ensures
        r == hist_has(hist@, (t@, id@)),
{
    let mut k: usize = 0;
    while k < hist.len()
        invariant
            k <= hist@.len(),
            forall|x: int| 0 <= x < k ==> !((#[trigger] hist@[x]).0@ == t@ && hist@[x].1@ == id@),
        decreases hist@.len() - k,
    {
        if str_eq(hist[k].0.as_str(), t) && str_eq(hist[k].1.as_str(), id) {
            assert(hist@[k as int].0@ == t@ && hist@[k as int].1@ == id@);
            return true;
        }
        k = k + 1;
    }
    false
}

/// The operations of a batch taken in the order `order` gives.
pub open spec fn reordered(ops: Seq<SyncOperation>, order: Seq<int>) -> Seq<SyncOperation> {
    order.map_values(|i: int| ops[i])
}

/// The action of the last operation on `t` when the batch is taken in `order`.
fn final_action_in(operations: &Vec<SyncOperation>, order: &Vec<usize>, t: &str, id: &str) -> (r: Option<OperationAction>)
    requires
        forall|p: int| 0 <= p < order@.len() ==> #[trigger] order@[p] < operations@.len(),
    ensures
        r == final_action(reordered(operations@, ints(order@)), (t@, id@)),
{
    let ghost batch = reordered(operations@, ints(order@));
    let mut last: Option<OperationAction> = None;
    let mut p: usize = 0;
    while p < order.len()
        invariant
            batch == reordered(operations@, ints(order@)),
            forall|q: int| 0 <= q < order@.len() ==> #[trigger] order@[q] < operations@.len(),
            p <= order@.len(),
            last == final_action(batch.take(p as int), (t@, id@)),
        decreases order@.len() - p,
    {
        let op = &operations[order[p]];
        proof {
            assert(batch.take(p + 1).drop_last() =~= batch.take(p as int));
            assert(batch.take(p + 1).last() == operations@[order@[p as int] as int]);
        }
        if str_eq(op.entity_type.as_str(), t) && str_eq(op.entity_id.as_str(), id) {
            last = Some(op.action);
        }
        p = p + 1;
    }
    assert(batch.take(order@.len() as int) =~= batch);
    last
}

/// The references of the batch, checked in batch order against the batch
/// taken in `order`.
fn batch_references(
    operations: &Vec<SyncOperation>,
    order: &Vec<usize>,
    historically_exported: &Vec<(String, String)>,
) -> (r: Result<Vec<Option<(String, String)>>, SyncError>)
    requires
        forall|p: int| 0 <= p < order@.len() ==> #[trigger] order@[p] < operations@.len(),
    ensures
        ({
            let batch = reordered(operations@, ints(order@));
            match r {
                Ok(deps) => deps@.len() == operations@.len() && (forall|i: int|
                    0 <= i < operations@.len() ==> pack_dependency(#[trigger] operations@[i]) == Some(
                        pair_view(deps@[i]),
                    )) && forall|i: int|
                    0 <= i < operations@.len() ==> reference_ok(batch, historically_exported@, #[trigger] operations@[i]),
                Err(e) => exists|i: int|
                    0 <= i < operations@.len() && !reference_ok(batch, historically_exported@, operations@[i]) && (forall|
                        j: int,
                    |
                        0 <= j < i ==> reference_ok(batch, historically_exported@, #[trigger] operations@[j]))
                        && #[trigger] reference_error(batch, historically_exported@, operations@[i], e),
            }
        }),
{
    let ghost batch = reordered(operations@, ints(order@));
    let n = operations.len();
    let mut deps: Vec<Option<(String, String)>> = Vec::new();
    let mut i: usize = 0;
    while i < n
        invariant
            n == operations.len(),
            batch == reordered(operations@, ints(order@)),
            forall|p: int| 0 <= p < order@.len() ==> #[trigger] order@[p] < operations@.len(),
            i <= n,
            deps@.len() == i,
            forall|x: int| 0 <= x < i ==> pack_dependency(#[trigger] operations@[x]) == Some(pair_view(deps@[x])),
            forall|x: int| 0 <= x < i ==> reference_ok(batch, historically_exported@, #[trigger] operations@[x]),
        decreases n - i,
    {
        let d = match pack_dependency_exec(&operations[i]) {
            Ok(d) => d,
            Err(e) => {
                assert(reference_error(batch, historically_exported@, operations@[i as int], e));
                return Err(e);
            },
        };
        if let Some((t, id)) = &d {
            proof {
                lemma_final_action_none(batch, (t@, id@));
            }
            match final_action_in(operations, order, t.as_str(), id.as_str()) {
                Some(a) => {
                    if a != OperationAction::Upsert {
                        let e = SyncError::PackageDependencyConflict;
                        assert(reference_error(batch, historically_exported@, operations@[i as int], e));
                        return Err(e);
                    }
                },
                None => {
                    if !hist_contains(historically_exported, t.as_str(), id.as_str()) {
                        let e = SyncError::PackageDependencyMissing;
                        assert(reference_error(batch, historically_exported@, operations@[i as int], e));
                        return Err(e);
                    }
                },
            }
        }
        deps.push(d);
        i = i + 1;
    }
    Ok(deps)
}

/// Every group of the batch, in order.
fn batch_components(
    operations: Ghost<Seq<SyncOperation>>,
    ents: &Vec<(String, String)>,
    deps: &Vec<Option<(String, String)>>,
) -> (r: Vec<Vec<usize>>)
    requires
        deps_match(operations@, deps@),
        ents_match(operations@, ents@),
    ensures
        packages_view(r@) == components(operations@),
        forall|c: int, k: int| 0 <= c < r@.len() && 0 <= k < r@[c]@.len() ==> #[trigger] r@[c]@[k] < ents@.len(),
{
    let n = ents.len();
    let ghost ops = operations@;
    let mut assigned: Vec<bool> = Vec::new();
    let mut i: usize = 0;
    while i < n
        invariant
            n == operations@.len(),
            n == ents.len(),
            i <= n,
            assigned@.len() == i,
            forall|v: int| 0 <= v < i ==> !(#[trigger] assigned@[v]),
        decreases n - i,
    {
        assigned.push(false);
        i = i + 1;
    }
    let mut comps: Vec<Vec<usize>> = Vec::new();
    let mut r: usize = 0;
    while r < n
        invariant
            n == operations@.len(),
            n == ents.len(),
            ops == operations@,
            deps_match(operations@, deps@),
            ents_match(operations@, ents@),
            r <= n,
            assigned@.len() == n,
            forall|v: int| 0 <= v < n ==> (#[trigger] assigned@[v] <==> exists|j: int| 0 <= j < r && #[trigger] connected(ops, j, v)),
            packages_view(comps@) == roots_upto(ops, r as int).map_values(|x: int| members_upto(ops, x, n as int)),
            forall|c: int, k: int| 0 <= c < comps@.len() && 0 <= k < comps@[c]@.len() ==> #[trigger] comps@[c]@[k] < n,
        decreases n - r,
    {
        let ghost before = comps@;
        if !assigned[r] {
            proof {
                assert(is_root(ops, r as int)) by {
                    assert forall|j: int| 0 <= j < r implies !#[trigger] connected(ops, j, r as int) by {
                        if connected(ops, j, r as int) {
                            assert(assigned@[r as int]);
                        }
                    }
                }
            }
            let vis = component_of(operations, ents, deps, r);
            let mut members: Vec<usize> = Vec::new();
            let ghost assigned0 = assigned@;
            let mut v: usize = 0;
            while v < n
                invariant
                    n == operations@.len(),
            n == ents.len(),
                    ops == operations@,
                    r < n,
                    v <= n,
                    vis@.len() == n,
                    forall|x: int| 0 <= x < n ==> (vis@[x] <==> connected(ops, r as int, x)),
                    assigned@.len() == n,
                    forall|x: int| 0 <= x < n ==> (#[trigger] assigned@[x] <==> (assigned0[x] || (x < v && vis@[x]))),
                    ints(members@) == members_upto(ops, r as int, v as int),
                    forall|k: int| 0 <= k < members@.len() ==> #[trigger] members@[k] < n,
                decreases n - v,
            {
                if vis[v] {
                    let ghost m0 = members@;
                    members.push(v);
                    assigned.set(v, true);
                    assert(ints(members@) =~= ints(m0).push(v as int));
                }
                v = v + 1;
            }
            proof {
                assert forall|x: int| 0 <= x < n implies (#[trigger] assigned@[x] <==> exists|j: int|
                    0 <= j < r + 1 && #[trigger] connected(ops, j, x)) by {
                    if assigned@[x] && !assigned0[x] {
                        assert(connected(ops, r as int, x));
                    }
                    if exists|j: int| 0 <= j < r + 1 && #[trigger] connected(ops, j, x) {
                        let j = choose|j: int| 0 <= j < r + 1 && #[trigger] connected(ops, j, x);
                        if j == r {
                            assert(vis@[x]);
                        } else {
                            assert(assigned0[x]);
                        }
                    }
                }
            }
            let ghost mv = members@;
            assert(ints(mv) == members_upto(ops, r as int, n as int));
            comps.push(members);
            proof {
                assert forall|c: int, k: int| 0 <= c < comps@.len() && 0 <= k < comps@[c]@.len() implies #[trigger] comps@[c]@[k] < n by {
                    if c < before.len() {
                        assert(comps@[c] == before[c]);
                    }
                }
                assert(comps@ == before.push(comps@[before.len() as int]));
                assert(comps@[before.len() as int]@ == mv);
                assert(packages_view(comps@) =~= packages_view(before).push(ints(mv)));
                assert(roots_upto(ops, r + 1) == roots_upto(ops, r as int).push(r as int));
                assert(roots_upto(ops, r + 1).map_values(|x: int| members_upto(ops, x, n as int)) =~= roots_upto(
                    ops,
                    r as int,
                ).map_values(|x: int| members_upto(ops, x, n as int)).push(members_upto(ops, r as int, n as int)));
                assert(packages_view(comps@) =~= roots_upto(ops, r + 1).map_values(
                    |x: int| members_upto(ops, x, n as int),
                ));
            }
        } else {
            proof {
                let j0 = choose|j: int| 0 <= j < r && #[trigger] connected(ops, j, r as int);
                assert(!is_root(ops, r as int));
                assert(roots_upto(ops, r + 1) == roots_upto(ops, r as int));
                assert forall|x: int| 0 <= x < n implies (#[trigger] assigned@[x] <==> exists|j: int|
                    0 <= j < r + 1 && #[trigger] connected(ops, j, x)) by {
                    if exists|j: int| 0 <= j < r + 1 && #[trigger] connected(ops, j, x) {
                        let j = choose|j: int| 0 <= j < r + 1 && #[trigger] connected(ops, j, x);
                        if j == r {
                            lemma_connected_trans(ops, j0, r as int, x);
                        }
                    }
                }
            }
        }
        r = r + 1;
    }
    comps
}


/// Indexes whose operation was captured no later than `key`.
pub open spec fn captured_by(ops: Seq<SyncOperation>, key: i64) -> spec_fn(int) -> bool {
    |j: int| ops[j].capture_sequence <= key
}

/// Indexes whose operation was captured after `key`.
pub open spec fn captured_after(ops: Seq<SyncOperation>, key: i64) -> spec_fn(int) -> bool {
    |j: int| ops[j].capture_sequence > key
}

/// The first `k` operations' indexes in capture order: sorted by capture
/// sequence, operations with equal sequences kept in batch order. Each
/// index goes after every earlier one captured no later than it.
pub open spec fn capture_order_upto(ops: Seq<SyncOperation>, k: int) -> Seq<int>
    decreases k,
{
    if k <= 0 {
        Seq::empty()
    } else {
        let prev = capture_order_upto(ops, k - 1);
        let key = ops[k - 1].capture_sequence;
        prev.filter(captured_by(ops, key)) + seq![k - 1] + prev.filter(captured_after(ops, key))
    }
}

/// The batch's indexes in capture order.
pub open spec fn capture_order(ops: Seq<SyncOperation>) -> Seq<int> {
    capture_order_upto(ops, ops.len() as int)
}

/// The batch taken in capture order.
pub open spec fn capture_sorted(ops: Seq<SyncOperation>) -> Seq<SyncOperation> {
    reordered(ops, capture_order(ops))
}

/// Packages of positions in `order`, written as the batch indexes they hold.
pub open spec fn in_batch_terms(p: Seq<Seq<int>>, order: Seq<int>) -> Seq<Seq<int>> {
    p.map_values(|pkg: Seq<int>| pkg.map_values(|x: int| order[x]))
}

/// Operation `a` comes before operation `b` in capture order: it was
/// captured earlier, or at the same sequence and earlier in the batch.
pub open spec fn captured_before(ops: Seq<SyncOperation>, a: int, b: int) -> bool {
    ops[a].capture_sequence < ops[b].capture_sequence || (ops[a].capture_sequence == ops[b].capture_sequence && a < b)
}

/// Every index of `s` comes before the indexes after it.
pub open spec fn in_capture_order(ops: Seq<SyncOperation>, s: Seq<int>) -> bool {
    forall|p: int, q: int| 0 <= p < q < s.len() ==> captured_before(ops, #[trigger] s[p], #[trigger] s[q])
}

proof fn lemma_filter_in_order(ops: Seq<SyncOperation>, s: Seq<int>, pred: spec_fn(int) -> bool)
    requires
        in_capture_order(ops, s),
    ensures
        in_capture_order(ops, s.filter(pred)),
        forall|i: int| 0 <= i < s.filter(pred).len() ==> pred(#[trigger] s.filter(pred)[i]) && s.contains(
            s.filter(pred)[i],
        ),
    decreases s.len(),
{
    reveal(Seq::filter);
    if s.len() > 0 {
        let d = s.drop_last();
        assert forall|p: int, q: int| 0 <= p < q < d.len() implies captured_before(ops, #[trigger] d[p], #[trigger] d[q]) by {
            assert(d[p] == s[p] && d[q] == s[q]);
        }
        lemma_filter_in_order(ops, d, pred);
        let fd = d.filter(pred);
        assert forall|i: int| 0 <= i < fd.len() implies s.contains(#[trigger] fd[i]) by {
            let j = choose|j: int| 0 <= j < d.len() && d[j] == fd[i];
            assert(s[j] == fd[i]);
        }
        if pred(s.last()) {
            let f = fd.push(s.last());
            assert(s.filter(pred) == f);
            assert forall|p: int, q: int| 0 <= p < q < f.len() implies captured_before(ops, #[trigger] f[p], #[trigger] f[q]) by {
                if q == f.len() - 1 {
                    let j = choose|j: int| 0 <= j < d.len() && d[j] == fd[p];
                    assert(s[j] == f[p]);
                    assert(s[s.len() - 1] == f[q]);
                } else {
                    assert(f[p] == fd[p] && f[q] == fd[q]);
                }
            }
            assert forall|i: int| 0 <= i < f.len() implies pred(#[trigger] f[i]) && s.contains(f[i]) by {
                if i == f.len() - 1 {
                    assert(s[s.len() - 1] == f[i]);
                } else {
                    assert(f[i] == fd[i]);
                }
            }
        }
    }
}

proof fn lemma_filter_split(ops: Seq<SyncOperation>, s: Seq<int>, key: i64)
    ensures
        s.filter(captured_by(ops, key)).len() + s.filter(captured_after(ops, key)).len() == s.len(),
    decreases s.len(),
{
    reveal(Seq::filter);
    if s.len() > 0 {
        lemma_filter_split(ops, s.drop_last(), key);
    }
}

proof fn lemma_capture_order_upto(ops: Seq<SyncOperation>, k: int)
    requires
        0 <= k <= ops.len(),
    ensures
        capture_order_upto(ops, k).len() == k,
        forall|p: int| 0 <= p < k ==> 0 <= #[trigger] capture_order_upto(ops, k)[p] < k,
        in_capture_order(ops, capture_order_upto(ops, k)),
        forall|x: int| 0 <= x < k ==> #[trigger] capture_order_upto(ops, k).contains(x),
    decreases k,
{
    if k > 0 {
        lemma_capture_order_upto(ops, k - 1);
        let prev = capture_order_upto(ops, k - 1);
        let key = ops[k - 1].capture_sequence;
        let le = captured_by(ops, key);
        let gt = captured_after(ops, key);
        let l = prev.filter(le);
        let g = prev.filter(gt);
        lemma_filter_in_order(ops, prev, le);
        lemma_filter_in_order(ops, prev, gt);
        lemma_filter_split(ops, prev, key);
        let s = l + seq![k - 1] + g;
        assert(capture_order_upto(ops, k) == s);
        assert forall|i: int| 0 <= i < l.len() implies 0 <= #[trigger] l[i] < k - 1 && ops[l[i]].capture_sequence
            <= key by {
            assert(le(l[i]));
            let j = choose|j: int| 0 <= j < prev.len() && prev[j] == l[i];
        }
        assert forall|i: int| 0 <= i < g.len() implies 0 <= #[trigger] g[i] < k - 1 && ops[g[i]].capture_sequence
            > key by {
            assert(gt(g[i]));
            let j = choose|j: int| 0 <= j < prev.len() && prev[j] == g[i];
        }
        assert forall|p: int| 0 <= p < k implies 0 <= #[trigger] s[p] < k by {
            if p < l.len() {
                assert(s[p] == l[p]);
            } else if p > l.len() {
                assert(s[p] == g[p - l.len() - 1]);
            }
        }
        assert forall|x: int| 0 <= x < k implies #[trigger] s.contains(x) by {
            if x == k - 1 {
                assert(s[l.len() as int] == x);
            } else {
                assert(prev.contains(x));
                let i = choose|i: int| 0 <= i < prev.len() && prev[i] == x;
                if le(prev[i]) {
                    prev.lemma_filter_contains(le, i);
                    let a = choose|a: int| 0 <= a < l.len() && l[a] == x;
                    assert(s[a] == x);
                } else {
                    assert(gt(prev[i]));
                    prev.lemma_filter_contains(gt, i);
                    let a = choose|a: int| 0 <= a < g.len() && g[a] == x;
                    assert(s[l.len() + 1 + a] == x);
                }
            }
        }
        assert forall|p: int, q: int| 0 <= p < q < s.len() implies captured_before(ops, #[trigger] s[p], #[trigger] s[q]) by {
            if q < l.len() {
                assert(s[p] == l[p] && s[q] == l[q]);
            } else if p > l.len() {
                assert(s[p] == g[p - l.len() - 1] && s[q] == g[q - l.len() - 1]);
            } else if p < l.len() && q == l.len() {
                assert(s[p] == l[p] && s[q] == k - 1);
            } else if p < l.len() {
                assert(s[p] == l[p] && s[q] == g[q - l.len() - 1]);
            } else {
                assert(p == l.len() && s[p] == k - 1 && s[q] == g[q - l.len() - 1]);
            }
        }
    }
}

/// Taking a batch in capture order sorts it: every operation appears once,
/// in order of capture sequence, operations with equal sequences in batch
/// order.
pub proof fn lemma_capture_order_sorts(ops: Seq<SyncOperation>)
    ensures
        capture_order(ops).len() == ops.len(),
        forall|p: int| 0 <= p < ops.len() ==> 0 <= #[trigger] capture_order(ops)[p] < ops.len(),
        in_capture_order(ops, capture_order(ops)),
        capture_order(ops).no_duplicates(),
        forall|x: int| 0 <= x < ops.len() ==> #[trigger] capture_order(ops).contains(x),
{
    lemma_capture_order_upto(ops, ops.len() as int);
    let s = capture_order(ops);
    assert forall|p: int, q: int| 0 <= p < s.len() && 0 <= q < s.len() && p != q implies s[p] != s[q] by {
        if p < q {
            assert(captured_before(ops, s[p], s[q]));
        } else {
            assert(captured_before(ops, s[q], s[p]));
        }
    }
}

proof fn lemma_filter_push(s: Seq<int>, pred: spec_fn(int) -> bool, x: int)
    ensures
        s.push(x).filter(pred) == if pred(x) {
            s.filter(pred).push(x)
        } else {
            s.filter(pred)
        },
{
    reveal(Seq::filter);
    assert(s.push(x).drop_last() =~= s);
}

/// Keeps the positions of `order` whose operation passes the capture
/// comparison with `key`: no later than it, or after it.
fn keep_by_capture(operations: &Vec<SyncOperation>, order: &Vec<usize>, key: i64, after: bool, out: &mut Vec<usize>)
    requires
        forall|p: int| 0 <= p < order@.len() ==> #[trigger] order@[p] < operations@.len(),
    ensures
        ints(final(out)@) == ints(old(out)@) + ints(order@).filter(
            if after {
                captured_after(operations@, key)
            } else {
                captured_by(operations@, key)
            },
        ),
        forall|p: int| 0 <= p < final(out)@.len() ==> #[trigger] final(out)@[p] < operations@.len() || (p < old(
            out,
        )@.len() && final(out)@[p] == old(out)@[p]),
{
    let ghost pred = if after {
        captured_after(operations@, key)
    } else {
        captured_by(operations@, key)
    };
    let ghost start = out@;
    let mut j: usize = 0;
    while j < order.len()
        invariant
            pred == (if after {
                captured_after(operations@, key)
            } else {
                captured_by(operations@, key)
            }),
            forall|p: int| 0 <= p < order@.len() ==> #[trigger] order@[p] < operations@.len(),
            j <= order@.len(),
            ints(out@) == ints(start) + ints(order@).take(j as int).filter(pred),
            forall|p: int| 0 <= p < out@.len() ==> #[trigger] out@[p] < operations@.len() || (p < start.len()
                && out@[p] == start[p]),
        decreases order@.len() - j,
    {
        let i = order[j];
        let c = operations[i].capture_sequence;
        let keep = if after { c > key } else { c <= key };
        proof {
            assert(ints(order@).take(j + 1) =~= ints(order@).take(j as int).push(i as int));
            lemma_filter_push(ints(order@).take(j as int), pred, i as int);
        }
        let ghost before = out@;
        if keep {
            out.push(i);
            assert(ints(out@) =~= ints(before).push(i as int));
        }
        j = j + 1;
    }
    assert(ints(order@).take(order@.len() as int) =~= ints(order@));
}

/// The batch's indexes in capture order.
pub fn capture_order_of(operations: &Vec<SyncOperation>) -> (r: Vec<usize>)
    ensures
        ints(r@) == capture_order(operations@),
        forall|p: int| 0 <= p < r@.len() ==> #[trigger] r@[p] < operations@.len(),
{
    let mut order: Vec<usize> = Vec::new();
    let mut k: usize = 0;
    while k < operations.len()
        invariant
            k <= operations@.len(),
            ints(order@) == capture_order_upto(operations@, k as int),
            forall|p: int| 0 <= p < order@.len() ==> #[trigger] order@[p] < operations@.len(),
        decreases operations@.len() - k,
    {
        let key = operations[k].capture_sequence;
        let mut next: Vec<usize> = Vec::new();
        keep_by_capture(operations, &order, key, false, &mut next);
        let ghost low = next@;
        next.push(k);
        proof {
            assert(ints(next@) =~= ints(low).push(k as int));
            assert forall|p: int| 0 <= p < next@.len() implies #[trigger] next@[p] < operations@.len() by {
                if p < low.len() {
                    assert(next@[p] == low[p]);
                }
            }
        }
        keep_by_capture(operations, &order, key, true, &mut next);
        proof {
            let prev = capture_order_upto(operations@, k as int);
            assert(ints(next@) =~= prev.filter(captured_by(operations@, key)) + seq![k as int] + prev.filter(
                captured_after(operations@, key),
            ));
        }
        order = next;
        k = k + 1;
    }
    order
}

fn clone_reference(d: &Option<(String, String)>) -> (r: Option<(String, String)>)
    ensures
        r == *d,
{
    match d {
        Some((a, b)) => Some((a.clone(), b.clone())),
        None => None,
    }
}

/// Cuts a batch already in capture order, whose references were checked,
/// into events: a group larger than the limit is refused, otherwise groups
/// fill each event greedily in order.
fn pack_groups(
    ops: Ghost<Seq<SyncOperation>>,
    ents: &Vec<(String, String)>,
    deps: &Vec<Option<(String, String)>>,
    max_operations: usize,
) -> (r: Result<Vec<Vec<usize>>, SyncError>)
    requires
        deps_match(ops@, deps@),
        ents_match(ops@, ents@),
        max_operations > 0,
    ensures
        if exists|c: int| 0 <= c < components(ops@).len() && (#[trigger] components(ops@)[c]).len() > max_operations {
            r matches Err(SyncError::PackageTooLarge)
        } else {
            r matches Ok(p) && packages_view(p@) == packed(components(ops@), max_operations as nat)
        },
        r matches Ok(p) ==> forall|a: int, b: int| 0 <= a < p@.len() && 0 <= b < p@[a]@.len() ==> #[trigger] p@[a]@[b]
            < ents@.len(),
{
    let comps = batch_components(ops, ents, deps);
    let ghost cv = components(ops@);
    let mut c: usize = 0;
    while c < comps.len()
        invariant
            packages_view(comps@) == cv,
            cv == components(ops@),
            max_operations > 0,
            c <= comps@.len(),
            forall|x: int| 0 <= x < c ==> (#[trigger] cv[x]).len() <= max_operations,
        decreases comps@.len() - c,
    {
        assert(cv[c as int] == ints(comps@[c as int]@));
        if comps[c].len() > max_operations {
            assert(components(ops@)[c as int].len() > max_operations);
            return Err(SyncError::PackageTooLarge);
        }
        c = c + 1;
    }
    let mut packages: Vec<Vec<usize>> = Vec::new();
    let mut current: Vec<usize> = Vec::new();
    let mut c: usize = 0;
    while c < comps.len()
        invariant
            packages_view(comps@) == cv,
            c <= comps@.len(),
            forall|x: int| 0 <= x < cv.len() ==> (#[trigger] cv[x]).len() <= max_operations,
            current@.len() <= max_operations,
            (packages_view(packages@), ints(current@)) == pack_fold(cv, max_operations as nat, c as int),
            forall|a: int, b: int| 0 <= a < comps@.len() && 0 <= b < comps@[a]@.len() ==> #[trigger] comps@[a]@[b]
                < ents@.len(),
            forall|a: int, b: int| 0 <= a < packages@.len() && 0 <= b < packages@[a]@.len() ==> #[trigger] packages@[a]@[b]
                < ents@.len(),
            forall|b: int| 0 <= b < current@.len() ==> #[trigger] current@[b] < ents@.len(),
        decreases comps@.len() - c,
    {
        let comp = &comps[c];
        assert(cv[c as int] == ints(comp@));
        let ghost p0 = packages@;
        let ghost cur0 = current@;
        if current.len() > 0 && comp.len() > max_operations - current.len() {
            packages.push(current);
            current = Vec::new();
            proof {
                assert(packages_view(packages@) =~= packages_view(p0).push(ints(cur0)));
                assert forall|a: int, b: int| 0 <= a < packages@.len() && 0 <= b < packages@[a]@.len() implies #[trigger] packages@[a]@[b]
                    < ents@.len() by {
                    if a < p0.len() {
                        assert(packages@[a] == p0[a]);
                    }
                }
            }
        }
        let ghost cur1 = current@;
        let mut k: usize = 0;
        while k < comp.len()
            invariant
                k <= comp@.len(),
                current@ == cur1 + comp@.take(k as int),
                c < comps@.len(),
                comp == comps@[c as int],
                forall|a: int, b: int| 0 <= a < comps@.len() && 0 <= b < comps@[a]@.len() ==> #[trigger] comps@[a]@[b]
                    < ents@.len(),
                forall|b: int| 0 <= b < cur1.len() ==> #[trigger] cur1[b] < ents@.len(),
            decreases comp@.len() - k,
        {
            current.push(comp[k]);
            assert(current@ =~= cur1 + comp@.take(k + 1));
            k = k + 1;
        }
        proof {
            assert(comp@.take(comp@.len() as int) =~= comp@);
            assert(ints(current@) =~= ints(cur1) + ints(comp@));
            if cur0.len() > 0 && cur0.len() + comp@.len() > max_operations {
                assert(cur1.len() == 0);
                assert(ints(current@) =~= ints(comp@));
            }
            assert forall|b: int| 0 <= b < current@.len() implies #[trigger] current@[b] < ents@.len() by {
                if b < cur1.len() {
                    assert(current@[b] == cur1[b]);
                } else {
                    assert(current@[b] == comp@[b - cur1.len()]);
                    assert(comps@[c as int]@[b - cur1.len()] < ents@.len());
                }
            }
        }
        c = c + 1;
    }
    if current.len() > 0 {
        let ghost p0 = packages@;
        let ghost cur0 = current@;
        packages.push(current);
        assert(packages_view(packages@) =~= packages_view(p0).push(ints(cur0)));
        assert forall|a: int, b: int| 0 <= a < packages@.len() && 0 <= b < packages@[a]@.len() implies #[trigger] packages@[a]@[b]
            < ents@.len() by {
            if a < p0.len() {
                assert(packages@[a] == p0[a]);
            }
        }
    }
    Ok(packages)
}

/// Cuts pending operations into events of at most `max_operations`, as
/// batch indexes. The batch is first taken in capture order (by capture
/// sequence, ties in batch order): operations on one entity, and an upsert
/// with the entity it refers to, always travel in one event; groups keep the
/// capture order of their first operation, each in capture order, and fill
/// each event greedily. The references are checked in batch order, and the
/// first that is malformed, names an entity the batch deletes last, or
/// names one never exported is refused; then a group larger than the limit.
/// `historically_exported` lists the entities exported earlier whose last
/// export was an upsert.
pub fn pack_operation_indexes(
    operations: &Vec<SyncOperation>,
    historically_exported: &Vec<(String, String)>,
    max_operations: usize,
) -> (r: Result<Vec<Vec<usize>>, SyncError>)
    ensures
        operations@.len() == 0 ==> (r matches Ok(p) && p@.len() == 0),
        operations@.len() > 0 && max_operations == 0 ==> (r matches Err(SyncError::PackageTooLarge)),
        operations@.len() > 0 && max_operations > 0 ==> {
            let batch = capture_sorted(operations@);
            if exists|i: int|
                0 <= i < operations@.len() && !reference_ok(batch, historically_exported@, operations@[i]) {
                r matches Err(e) && exists|i: int|
                    0 <= i < operations@.len() && !reference_ok(batch, historically_exported@, operations@[i]) && (forall|
                        j: int,
                    |
                        0 <= j < i ==> reference_ok(batch, historically_exported@, #[trigger] operations@[j]))
                        && #[trigger] reference_error(batch, historically_exported@, operations@[i], e)
            } else if exists|c: int| 0 <= c < components(batch).len() && (#[trigger] components(batch)[c]).len()
                > max_operations {
                r matches Err(SyncError::PackageTooLarge)
            } else {
                r matches Ok(p) && packages_view(p@) == in_batch_terms(
                    packed(components(batch), max_operations as nat),
                    capture_order(operations@),
                )
            }
        },
{
    let n = operations.len();
    if n == 0 {
        return Ok(Vec::new());
    }
    if max_operations == 0 {
        return Err(SyncError::PackageTooLarge);
    }
    let order = capture_order_of(operations);
    let ghost batch = reordered(operations@, ints(order@));
    assert(batch == capture_sorted(operations@));
    let deps = match batch_references(operations, &order, historically_exported) {
        Ok(d) => d,
        Err(e) => return Err(e),
    };
    let mut ents: Vec<(String, String)> = Vec::new();
    let mut sorted_deps: Vec<Option<(String, String)>> = Vec::new();
    let mut p: usize = 0;
    while p < order.len()
        invariant
            batch == reordered(operations@, ints(order@)),
            forall|q: int| 0 <= q < order@.len() ==> #[trigger] order@[q] < operations@.len(),
            deps@.len() == operations@.len(),
            forall|i: int| 0 <= i < operations@.len() ==> pack_dependency(#[trigger] operations@[i]) == Some(pair_view(deps@[i])),
            p <= order@.len(),
            ents@.len() == p,
            sorted_deps@.len() == p,
            forall|q: int| 0 <= q < p ==> entity_pair(#[trigger] ents@[q]) == entity_of(batch[q]),
            forall|q: int| 0 <= q < p ==> pack_dependency(batch[q]) == Some(pair_view(#[trigger] sorted_deps@[q])),
        decreases order@.len() - p,
    {
        let i = order[p];
        ents.push((operations[i].entity_type.clone(), operations[i].entity_id.clone()));
        sorted_deps.push(clone_reference(&deps[i]));
        proof {
            assert(batch[p as int] == operations@[i as int]);
            assert(pack_dependency(operations@[i as int]) == Some(pair_view(deps@[i as int])));
        }
        p = p + 1;
    }
    proof {
        assert forall|q: int| 0 <= q < batch.len() implies reference_ok(batch, historically_exported@, #[trigger] batch[q]) by {
            assert(reference_ok(batch, historically_exported@, operations@[order@[q] as int]));
        }
    }
    let packages = match pack_groups(Ghost(batch), &ents, &sorted_deps, max_operations) {
        Ok(pk) => pk,
        Err(e) => return Err(e),
    };
    let ghost order_ints = ints(order@);
    let mut out: Vec<Vec<usize>> = Vec::new();
    let mut a: usize = 0;
    while a < packages.len()
        invariant
            order_ints == ints(order@),
            ents@.len() == order@.len(),
            forall|q: int| 0 <= q < order@.len() ==> #[trigger] order@[q] < operations@.len(),
            forall|x: int, y: int| 0 <= x < packages@.len() && 0 <= y < packages@[x]@.len() ==> #[trigger] packages@[x]@[y]
                < ents@.len(),
            a <= packages@.len(),
            packages_view(out@) == in_batch_terms(packages_view(packages@).take(a as int), order_ints),
        decreases packages@.len() - a,
    {
        let pkg = &packages[a];
        let mut row: Vec<usize> = Vec::new();
        let mut b: usize = 0;
        while b < pkg.len()
            invariant
                order_ints == ints(order@),
                ents@.len() == order@.len(),
                a < packages@.len(),
                pkg == packages@[a as int],
                forall|x: int, y: int| 0 <= x < packages@.len() && 0 <= y < packages@[x]@.len() ==> #[trigger] packages@[x]@[y]
                    < ents@.len(),
                b <= pkg@.len(),
                ints(row@) == ints(pkg@).take(b as int).map_values(|x: int| order_ints[x]),
            decreases pkg@.len() - b,
        {
            assert(packages@[a as int]@[b as int] < ents@.len());
            let ghost row0 = row@;
            row.push(order[pkg[b]]);
            assert(order_ints[pkg@[b as int] as int] == order@[pkg@[b as int] as int] as int);
            assert(ints(pkg@).take(b + 1) =~= ints(pkg@).take(b as int).push(pkg@[b as int] as int));
            assert(ints(row@) =~= ints(row0).push(order@[pkg@[b as int] as int] as int));
            assert(ints(row@) =~= ints(pkg@).take(b + 1).map_values(|x: int| order_ints[x]));
            b = b + 1;
        }
        let ghost out0 = out@;
        out.push(row);
        proof {
            assert(ints(pkg@).take(pkg@.len() as int) =~= ints(pkg@));
            assert(packages_view(packages@).take(a + 1) =~= packages_view(packages@).take(a as int).push(ints(pkg@)));
            assert(packages_view(out@) =~= packages_view(out0).push(ints(out@[a as int]@)));
            assert(in_batch_terms(packages_view(packages@).take(a + 1), order_ints) =~= in_batch_terms(
                packages_view(packages@).take(a as int),
                order_ints,
            ).push(ints(pkg@).map_values(|x: int| order_ints[x])));
        }
        a = a + 1;
    }
    assert(packages_view(packages@).take(packages@.len() as int) =~= packages_view(packages@));
    Ok(out)
}


/// Two operations on the same entity always travel together.
pub proof fn lemma_same_entity_travels_together(ops: Seq<SyncOperation>, i: int, j: int)
    requires
        0 <= i < ops.len(),
        0 <= j < ops.len(),
        same_entity(ops[i], ops[j]),
    ensures
        connected(ops, i, j),
{
    let p = seq![i, j];
    assert(linked(ops, p[0], p[1]));
    assert(is_path(ops, p));
}

/// An upsert always travels with an entity of the batch it refers to.
pub proof fn lemma_reference_travels_together(ops: Seq<SyncOperation>, i: int, j: int)
    requires
        0 <= i < ops.len(),
        0 <= j < ops.len(),
        pack_dependency(ops[i]) == Some(Some(entity_of(ops[j]))),
    ensures
        connected(ops, i, j),
{
    let p = seq![i, j];
    assert(linked(ops, p[0], p[1]));
    assert(is_path(ops, p));
}

proof fn lemma_fold_within_limit(comps: Seq<Seq<int>>, max: nat, k: int)
    requires
        0 <= k <= comps.len(),
        forall|c: int| 0 <= c < comps.len() ==> (#[trigger] comps[c]).len() <= max,
    ensures
        pack_fold(comps, max, k).1.len() <= max,
        forall|x: int| 0 <= x < pack_fold(comps, max, k).0.len() ==> (#[trigger] pack_fold(comps, max, k).0[x]).len() <= max,
    decreases k,
{
    if k > 0 {
        lemma_fold_within_limit(comps, max, k - 1);
        let prev = pack_fold(comps, max, k - 1);
        let comp = comps[k - 1];
        if prev.1.len() > 0 && prev.1.len() + comp.len() > max {
            let next = (prev.0.push(prev.1), comp);
            assert(pack_fold(comps, max, k) == next);
            assert forall|x: int| 0 <= x < next.0.len() implies (#[trigger] next.0[x]).len() <= max by {
                if x < prev.0.len() {
                    assert(next.0[x] == prev.0[x]);
                }
            }
        }
    }
}

/// No event exceeds the limit when no group does.
pub proof fn lemma_packed_within_limit(comps: Seq<Seq<int>>, max: nat)
    requires
        forall|c: int| 0 <= c < comps.len() ==> (#[trigger] comps[c]).len() <= max,
    ensures
        forall|x: int| 0 <= x < packed(comps, max).len() ==> (#[trigger] packed(comps, max)[x]).len() <= max,
{
    lemma_fold_within_limit(comps, max, comps.len() as int);
    let s = pack_fold(comps, max, comps.len() as int);
    if s.1.len() > 0 {
        assert forall|x: int| 0 <= x < packed(comps, max).len() implies (#[trigger] packed(comps, max)[x]).len() <= max by {
            if x < s.0.len() {
                assert(packed(comps, max)[x] == s.0[x]);
            }
        }
    }
}

/// The concatenation of a sequence of sequences.
pub open spec fn flatten(s: Seq<Seq<int>>) -> Seq<int>
    decreases s.len(),
{
    if s.len() == 0 {
        Seq::empty()
    } else {
        flatten(s.drop_last()) + s.last()
    }
}

proof fn lemma_fold_keeps_order(comps: Seq<Seq<int>>, max: nat, k: int)
    requires
        0 <= k <= comps.len(),
    ensures
        flatten(pack_fold(comps, max, k).0) + pack_fold(comps, max, k).1 == flatten(comps.take(k)),
    decreases k,
{
    if k > 0 {
        lemma_fold_keeps_order(comps, max, k - 1);
        let prev = pack_fold(comps, max, k - 1);
        let comp = comps[k - 1];
        assert(comps.take(k).drop_last() =~= comps.take(k - 1));
        assert(comps.take(k).last() == comp);
        if prev.1.len() > 0 && prev.1.len() + comp.len() > max {
            assert(prev.0.push(prev.1).drop_last() =~= prev.0);
            assert(flatten(prev.0.push(prev.1)) == flatten(prev.0) + prev.1);
            assert(flatten(prev.0.push(prev.1)) + comp =~= flatten(prev.0) + prev.1 + comp);
        } else {
            assert(flatten(prev.0) + (prev.1 + comp) =~= flatten(prev.0) + prev.1 + comp);
        }
    }
}

/// Packing loses, repeats and reorders nothing: the events, read in order,
/// are the groups read in order.
pub proof fn lemma_packing_keeps_every_operation(comps: Seq<Seq<int>>, max: nat)
    ensures
        flatten(packed(comps, max)) == flatten(comps),
{
    lemma_fold_keeps_order(comps, max, comps.len() as int);
    assert(comps.take(comps.len() as int) =~= comps);
    let s = pack_fold(comps, max, comps.len() as int);
    if s.1.len() > 0 {
        assert(s.0.push(s.1).drop_last() =~= s.0);
    } else {
        assert(flatten(s.0) + s.1 =~= flatten(s.0));
    }
}


proof fn lemma_connected_sym(ops: Seq<SyncOperation>, i: int, j: int)
    requires
        connected(ops, i, j),
    ensures
        connected(ops, j, i),
{
    let p = choose|p: Seq<int>| #[trigger] is_path(ops, p) && p[0] == i && p.last() == j;
    let q = p.reverse();
    assert forall|k: int| 0 <= k < q.len() implies 0 <= #[trigger] q[k] < ops.len() by {
        assert(q[k] == p[p.len() - 1 - k]);
    }
    assert forall|k: int| 0 <= k < q.len() - 1 implies #[trigger] linked(ops, q[k], q[k + 1]) by {
        let a = p.len() - 2 - k;
        assert(q[k] == p[a + 1] && q[k + 1] == p[a]);
        assert(linked(ops, p[a], p[a + 1]));
    }
    assert(is_path(ops, q));
    assert(q[0] == j && q.last() == i);
}

proof fn lemma_members_upto(ops: Seq<SyncOperation>, r: int, k: int)
    requires
        0 <= k,
    ensures
        forall|a: int, b: int| 0 <= a < b < members_upto(ops, r, k).len() ==> #[trigger] members_upto(ops, r, k)[a]
            < #[trigger] members_upto(ops, r, k)[b],
        forall|a: int| 0 <= a < members_upto(ops, r, k).len() ==> 0 <= #[trigger] members_upto(ops, r, k)[a] < k
            && connected(ops, r, members_upto(ops, r, k)[a]),
        forall|x: int| 0 <= x < k && connected(ops, r, x) ==> #[trigger] members_upto(ops, r, k).contains(x),
    decreases k,
{
    if k > 0 {
        lemma_members_upto(ops, r, k - 1);
        let prev = members_upto(ops, r, k - 1);
        if connected(ops, r, k - 1) {
            let s = prev.push(k - 1);
            assert(members_upto(ops, r, k) == s);
            assert forall|x: int| 0 <= x < k && connected(ops, r, x) implies #[trigger] s.contains(x) by {
                if x < k - 1 {
                    assert(prev.contains(x));
                    let a = choose|a: int| 0 <= a < prev.len() && prev[a] == x;
                    assert(s[a] == x);
                } else {
                    assert(s[s.len() - 1] == x);
                }
            }
        } else {
            assert forall|x: int| 0 <= x < k && connected(ops, r, x) implies #[trigger] prev.contains(x) by {
                assert(x < k - 1);
            }
        }
    }
}

proof fn lemma_has_root(ops: Seq<SyncOperation>, x: int)
    requires
        0 <= x < ops.len(),
    ensures
        exists|r: int| 0 <= r <= x && is_root(ops, r) && #[trigger] connected(ops, r, x),
    decreases x,
{
    lemma_connected_refl(ops, x);
    if !is_root(ops, x) {
        let j = choose|j: int| 0 <= j < x && #[trigger] connected(ops, j, x);
        lemma_has_root(ops, j);
        let r = choose|r: int| 0 <= r <= j && is_root(ops, r) && #[trigger] connected(ops, r, j);
        lemma_connected_trans(ops, r, j, x);
    } else {
        assert(connected(ops, x, x));
    }
}

/// Some root before `k` is connected to `x`.
pub open spec fn rooted(ops: Seq<SyncOperation>, k: int, x: int) -> bool {
    exists|r: int| 0 <= r < k && is_root(ops, r) && #[trigger] connected(ops, r, x)
}

pub open spec fn groups_upto(ops: Seq<SyncOperation>, k: int) -> Seq<int> {
    flatten(roots_upto(ops, k).map_values(|r: int| members_upto(ops, r, ops.len() as int)))
}

proof fn lemma_groups_upto(ops: Seq<SyncOperation>, k: int)
    requires
        0 <= k <= ops.len(),
    ensures
        groups_upto(ops, k).no_duplicates(),
        forall|a: int| 0 <= a < groups_upto(ops, k).len() ==> rooted(ops, k, #[trigger] groups_upto(ops, k)[a]),
        forall|a: int| 0 <= a < groups_upto(ops, k).len() ==> 0 <= #[trigger] groups_upto(ops, k)[a] < ops.len(),
        forall|x: int, r: int| 0 <= x < ops.len() && 0 <= r < k && is_root(ops, r) && #[trigger] connected(ops, r, x)
            ==> #[trigger] groups_upto(ops, k).contains(x),
    decreases k,
{
    let n = ops.len() as int;
    let f = |r: int| members_upto(ops, r, n);
    if k > 0 {
        lemma_groups_upto(ops, k - 1);
        let prev = groups_upto(ops, k - 1);
        if is_root(ops, k - 1) {
            let m = members_upto(ops, k - 1, n);
            lemma_members_upto(ops, k - 1, n);
            assert(roots_upto(ops, k) == roots_upto(ops, k - 1).push(k - 1));
            assert(roots_upto(ops, k).map_values(f) =~= roots_upto(ops, k - 1).map_values(f).push(m));
            assert(roots_upto(ops, k).map_values(f).drop_last() =~= roots_upto(ops, k - 1).map_values(f));
            let s = prev + m;
            assert(groups_upto(ops, k) == s);
            assert forall|a: int, b: int| 0 <= a < s.len() && 0 <= b < s.len() && a != b implies s[a] != s[b] by {
                if a < prev.len() && b < prev.len() {
                } else if a >= prev.len() && b >= prev.len() {
                    let a1 = a - prev.len();
                    let b1 = b - prev.len();
                    if a1 < b1 {
                        assert(m[a1] < m[b1]);
                    } else {
                        assert(m[b1] < m[a1]);
                    }
                } else {
                    let (p, q) = if a < prev.len() { (a, b - prev.len()) } else { (b, a - prev.len()) };
                    let x = prev[p];
                    assert(connected(ops, k - 1, m[q]));
                    if x == m[q] {
                        assert(rooted(ops, k - 1, prev[p]));
                        let r = choose|r: int| 0 <= r < k - 1 && is_root(ops, r) && #[trigger] connected(ops, r, x);
                        lemma_connected_sym(ops, k - 1, x);
                        lemma_connected_trans(ops, r, x, k - 1);
                    }
                }
            }
            assert forall|a: int| 0 <= a < s.len() implies rooted(ops, k, #[trigger] s[a]) by {
                if a >= prev.len() {
                    assert(connected(ops, k - 1, m[a - prev.len()]));
                    assert(s[a] == m[a - prev.len()]);
                } else {
                    assert(s[a] == prev[a]);
                    assert(rooted(ops, k - 1, prev[a]));
                    let r = choose|r: int| 0 <= r < k - 1 && is_root(ops, r) && #[trigger] connected(ops, r, prev[a]);
                }
            }
            assert forall|a: int| 0 <= a < s.len() implies 0 <= #[trigger] s[a] < n by {
                if a >= prev.len() {
                    assert(s[a] == m[a - prev.len()]);
                } else {
                    assert(s[a] == prev[a]);
                }
            }
            assert forall|x: int, r: int| 0 <= x < n && 0 <= r < k && is_root(ops, r) && #[trigger] connected(ops, r, x)
                implies #[trigger] s.contains(x) by {
                if r == k - 1 {
                    assert(m.contains(x));
                    let a = choose|a: int| 0 <= a < m.len() && m[a] == x;
                    assert(s[prev.len() + a] == x);
                } else {
                    assert(prev.contains(x));
                    let a = choose|a: int| 0 <= a < prev.len() && prev[a] == x;
                    assert(s[a] == x);
                }
            }
        } else {
            assert(roots_upto(ops, k) == roots_upto(ops, k - 1));
            assert(groups_upto(ops, k) == prev);
            assert forall|a: int| 0 <= a < prev.len() implies rooted(ops, k, #[trigger] prev[a]) by {
                assert(rooted(ops, k - 1, prev[a]));
                let r = choose|r: int| 0 <= r < k - 1 && is_root(ops, r) && #[trigger] connected(ops, r, prev[a]);
            }
        }
    } else {
        let g = roots_upto(ops, 0).map_values(|r: int| members_upto(ops, r, ops.len() as int));
        assert(g.len() == 0);
        assert(groups_upto(ops, 0).len() == 0);
        assert(groups_upto(ops, k).len() == 0);
    }
}

/// The groups hold every operation of the batch once: read in order they
/// list each position exactly once.
pub proof fn lemma_groups_cover_the_batch(ops: Seq<SyncOperation>)
    ensures
        flatten(components(ops)).no_duplicates(),
        forall|a: int| 0 <= a < flatten(components(ops)).len() ==> 0 <= #[trigger] flatten(components(ops))[a] < ops.len(),
        forall|x: int| 0 <= x < ops.len() ==> #[trigger] flatten(components(ops)).contains(x),
{
    lemma_groups_upto(ops, ops.len() as int);
    assert(components(ops) == roots_upto(ops, ops.len() as int).map_values(
        |r: int| members_upto(ops, r, ops.len() as int),
    ));
    assert forall|x: int| 0 <= x < ops.len() implies #[trigger] flatten(components(ops)).contains(x) by {
        lemma_has_root(ops, x);
        let r = choose|r: int| 0 <= r <= x && is_root(ops, r) && #[trigger] connected(ops, r, x);
        assert(groups_upto(ops, ops.len() as int).contains(x));
    }
}


proof fn lemma_flatten_in_batch_terms(p: Seq<Seq<int>>, order: Seq<int>)
    ensures
        flatten(in_batch_terms(p, order)) == flatten(p).map_values(|x: int| order[x]),
    decreases p.len(),
{
    if p.len() > 0 {
        lemma_flatten_in_batch_terms(p.drop_last(), order);
        assert(in_batch_terms(p, order).drop_last() =~= in_batch_terms(p.drop_last(), order));
        assert(flatten(p).map_values(|x: int| order[x]) =~= flatten(p.drop_last()).map_values(|x: int| order[x])
            + p.last().map_values(|x: int| order[x]));
    }
}

/// Read in order, the events that packing makes list every operation of the
/// batch exactly once.
pub proof fn lemma_events_list_every_operation_once(ops: Seq<SyncOperation>, max: nat)
    ensures
        ({
            let events = flatten(in_batch_terms(packed(components(capture_sorted(ops)), max), capture_order(ops)));
            &&& events.no_duplicates()
            &&& forall|a: int| 0 <= a < events.len() ==> 0 <= #[trigger] events[a] < ops.len()
            &&& forall|x: int| 0 <= x < ops.len() ==> #[trigger] events.contains(x)
        }),
{
    let order = capture_order(ops);
    let sorted = capture_sorted(ops);
    lemma_capture_order_sorts(ops);
    assert(sorted.len() == ops.len());
    lemma_groups_cover_the_batch(sorted);
    lemma_packing_keeps_every_operation(components(sorted), max);
    lemma_flatten_in_batch_terms(packed(components(sorted), max), order);
    let positions = flatten(components(sorted));
    let events = positions.map_values(|x: int| order[x]);
    assert(flatten(in_batch_terms(packed(components(sorted), max), order)) == events);
    assert forall|a: int, b: int| 0 <= a < events.len() && 0 <= b < events.len() && a != b implies events[a] != events[b] by {
        assert(positions[a] != positions[b]);
        assert(0 <= positions[a] < ops.len() && 0 <= positions[b] < ops.len());
    }
    assert forall|a: int| 0 <= a < events.len() implies 0 <= #[trigger] events[a] < ops.len() by {
        assert(0 <= positions[a] < ops.len());
    }
    assert forall|x: int| 0 <= x < ops.len() implies #[trigger] events.contains(x) by {
        assert(order.contains(x));
        let p = choose|p: int| 0 <= p < order.len() && order[p] == x;
        assert(positions.contains(p));
        let a = choose|a: int| 0 <= a < positions.len() && positions[a] == p;
        assert(events[a] == x);
    }
}

// ---------------------------------------------------------------------------
// References to prove from earlier exports
// ---------------------------------------------------------------------------

/// Some operation of the batch refers to `d`, which the batch does not
/// touch: only an earlier export can vouch for it.
pub open spec fn outside_reference(ops: Seq<SyncOperation>, d: (Seq<char>, Seq<char>)) -> bool {
    exists|i: int| 0 <= i < ops.len() && #[trigger] pack_dependency(ops[i]) == Some(Some(d)) && !has_entity(ops, d)
}

fn has_entity_exec(ops: &Vec<SyncOperation>, t: &str, id: &str) -> (r: bool)
    ensures
        r == has_entity(ops@, (t@, id@)),
{
    let mut j: usize = 0;
    while j < ops.len()
        invariant
            j <= ops@.len(),
            forall|x: int| 0 <= x < j ==> entity_of(#[trigger] ops@[x]) != (t@, id@),
        decreases ops@.len() - j,
    {
        if str_eq(ops[j].entity_type.as_str(), t) && str_eq(ops[j].entity_id.as_str(), id) {
            assert(entity_of(ops@[j as int]) == (t@, id@));
            return true;
        }
        j = j + 1;
    }
    false
}

/// The entities a batch refers to but does not touch, each once; these are
/// looked up among earlier exports before the batch is packed. A malformed
/// reference is refused.
pub fn dependencies_to_prove(operations: &Vec<SyncOperation>) -> (r: Result<Vec<(String, String)>, SyncError>)
    ensures
        r is Ok <==> forall|i: int| 0 <= i < operations@.len() ==> #[trigger] pack_dependency(operations@[i]) is Some,
        r matches Err(e) ==> e matches SyncError::Protocol(m) && m@ == "invalid package dependency field"@,
        r matches Ok(v) ==> {
            &&& forall|d: (Seq<char>, Seq<char>)| #[trigger] hist_has(v@, d) <==> outside_reference(operations@, d)
            &&& forall|a: int, b: int|
                0 <= a < b < v@.len() ==> !((#[trigger] v@[a]).0@ == (#[trigger] v@[b]).0@ && v@[a].1@ == v@[b].1@)
        },
{
    let mut out: Vec<(String, String)> = Vec::new();
    let mut i: usize = 0;
    while i < operations.len()
        invariant
            i <= operations@.len(),
            forall|k: int| 0 <= k < i ==> #[trigger] pack_dependency(operations@[k]) is Some,
            forall|d: (Seq<char>, Seq<char>)|
                #[trigger] hist_has(out@, d) <==> (exists|k: int|
                    0 <= k < i && #[trigger] pack_dependency(operations@[k]) == Some(Some(d)) && !has_entity(
                        operations@,
                        d,
                    )),
            forall|a: int, b: int|
                0 <= a < b < out@.len() ==> !((#[trigger] out@[a]).0@ == (#[trigger] out@[b]).0@ && out@[a].1@
                    == out@[b].1@),
        decreases operations@.len() - i,
    {
        let dep = match pack_dependency_exec(&operations[i]) {
            Ok(d) => d,
            Err(e) => return Err(e),
        };
        let ghost before = out@;
        if let Some((t, id)) = dep {
            if !has_entity_exec(operations, t.as_str(), id.as_str()) && !hist_contains(&out, t.as_str(), id.as_str()) {
                out.push((t, id));
                proof {
                    assert forall|a: int, b: int|
                        0 <= a < b < out@.len() implies !((#[trigger] out@[a]).0@ == (#[trigger] out@[b]).0@
                        && out@[a].1@ == out@[b].1@) by {
                        if b == out@.len() - 1 && out@[a].0@ == out@[b].0@ && out@[a].1@ == out@[b].1@ {
                            assert(before[a] == out@[a]);
                            assert(hist_has(before, (out@[b].0@, out@[b].1@)));
                        }
                    }
                }
            }
        }
        proof {
            assert forall|d: (Seq<char>, Seq<char>)|
                #[trigger] hist_has(out@, d) <==> (exists|k: int|
                    0 <= k < i + 1 && #[trigger] pack_dependency(operations@[k]) == Some(Some(d)) && !has_entity(
                        operations@,
                        d,
                    )) by {
                if hist_has(out@, d) && !hist_has(before, d) {
                    let x = choose|x: int| 0 <= x < out@.len() && (#[trigger] out@[x]).0@ == d.0 && out@[x].1@ == d.1;
                    if x < before.len() {
                        assert(before[x] == out@[x]);
                    }
                    assert(pack_dependency(operations@[i as int]) == Some(Some(d)));
                }
                if hist_has(before, d) {
                    let x = choose|x: int| 0 <= x < before.len() && (#[trigger] before[x]).0@ == d.0 && before[x].1@ == d.1;
                    assert(out@[x] == before[x]);
                }
                if pack_dependency(operations@[i as int]) == Some(Some(d)) && !has_entity(operations@, d) && !hist_has(
                    before,
                    d,
                ) {
                    assert(out@.last().0@ == d.0 && out@.last().1@ == d.1);
                    assert(out@[out@.len() - 1].0@ == d.0);
                }
            }
        }
        i = i + 1;
    }
    Ok(out)
}

/// An earlier export vouches for an entity when the last one that carried
/// it upserted it.
pub fn proves_dependency(last_exported_action: Option<&str>) -> (r: bool)
    ensures
        r == (last_exported_action matches Some(a) && a@ == "upsert"@),
{
    match last_exported_action {
        Some(a) => str_eq(a, "upsert"),
        None => false,
    }
}

} // verus!
