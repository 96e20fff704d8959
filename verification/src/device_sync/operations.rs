//! Sync operations: what one device changed on one entity, how an incoming
//! operation is checked against the local revision, and in which order the
//! operations of one package are applied.
use vstd::prelude::*;
use vstd::set_lib::{lemma_int_range, set_int_range};

use super::registry::{
    policy, atomic_group_fields, atomic_group_for_field, check_fields, fields_pass, fields_refusal, group_named, group_with_field,
    seq_has, spec_policy, strs,
};
use super::crypto::{sha256_digest, sha256_hex};
use super::SyncError;
use crate::outside::{json_text_or_null_bytes, text_or_null_json_bytes};
use crate::json::{get_member, member, JsonValue};
use crate::text::{
    insert_sorted_unique, lemma_sorted_set_determines, owned, push_str, spec_hex, spec_trim, str_eq, strictly_sorted, trim,
};

verus! {

/// Whether an operation writes fields or deletes the entity.
#[derive(Clone, Copy, PartialEq, Eq, Structural, Debug)]
pub enum OperationAction {
    Upsert,
    Tombstone,
}

/// One change of one entity, as captured on its author device.
#[derive(Debug)]
pub struct SyncOperation {
    pub operation_id: String,
    pub entity_type: String,
    pub entity_id: String,
    pub case_id: Option<String>,
    pub action: OperationAction,
    pub base_revision: i64,
    /// The changed fields, ordered by name, each once.
    pub changed_fields: Vec<(String, JsonValue)>,
    /// The hash each changed field had at the base revision, ordered by name.
    pub base_field_hashes: Vec<(String, String)>,
    pub atomic_group: Option<String>,
    pub author_device_id: String,
    pub logical_time: i64,
    pub capture_sequence: i64,
    pub schema_version: u32,
}

/// What applying one operation did.
#[derive(Clone, Debug, PartialEq)]
pub struct ApplyOutcome {
    pub operation_id: String,
    pub applied_fields: Vec<String>,
    pub conflict_fields: Vec<String>,
    pub duplicate: bool,
}

/// How the user settles the pending conflicts of one operation.
#[derive(Clone, Copy, PartialEq, Eq, Structural, Debug)]
pub enum ConflictResolution {
    KeepLocal,
    KeepRemote,
    Manual,
}

pub open spec fn opt_view(o: Option<String>) -> Option<Seq<char>> {
    match o {
        Some(s) => Some(s@),
        None => None,
    }
}

/// A reference to another entity read from a changed field: absent and
/// `null` mean none, a non-blank string names the entity, anything else is
/// refused with the message given.
pub open spec fn spec_dependency_value(op: SyncOperation, field: Seq<char>) -> Result<Option<Seq<char>>, Seq<char>> {
    match member(op.changed_fields@, field) {
        None => Ok(None),
        Some(JsonValue::Null) => Ok(None),
        Some(JsonValue::Str(s)) => if spec_trim(s@).len() > 0 {
            Ok(Some(s@))
        } else {
            Err("依赖字段不能为空: "@ + op.entity_type@ + "/"@ + field)
        },
        Some(_) => Err("依赖字段必须是字符串或 null: "@ + op.entity_type@ + "/"@ + field),
    }
}

fn dependency_message(prefix: &str, operation: &SyncOperation, field: &str) -> (r: String)
    ensures
        r@ == prefix@ + operation.entity_type@ + "/"@ + field@,
{
    let mut m = owned(prefix);
    push_str(&mut m, operation.entity_type.as_str());
    push_str(&mut m, "/");
    push_str(&mut m, field);
    m
}

/// Reads the entity a changed field refers to.
pub fn dependency_value(operation: &SyncOperation, field: &str) -> (r: Result<Option<String>, SyncError>)
    ensures
        match spec_dependency_value(*operation, field@) {
            Ok(v) => r matches Ok(x) && opt_view(x) == v,
            Err(m) => r matches Err(SyncError::Protocol(e)) && e@ == m,
        },
{
    match get_member(&operation.changed_fields, field) {
        None => Ok(None),
        Some(JsonValue::Null) => Ok(None),
        Some(JsonValue::Str(value)) => {
            let t = trim(value.as_str());
            if !t.as_str().is_empty() {
                Ok(Some(value.clone()))
            } else {
                Err(SyncError::Protocol(dependency_message("依赖字段不能为空: ", operation, field)))
            }
        },
        Some(_) => Err(SyncError::Protocol(dependency_message("依赖字段必须是字符串或 null: ", operation, field))),
    }
}


/// The operation at a position of the pending list.
pub open spec fn at(ops: Seq<SyncOperation>, pending: Seq<usize>, p: int) -> SyncOperation {
    ops[pending[p] as int]
}

pub open spec fn same_entity(a: SyncOperation, b: SyncOperation) -> bool {
    a.entity_type@ == b.entity_type@ && a.entity_id@ == b.entity_id@
}

pub open spec fn is_case(op: SyncOperation, id: Seq<char>) -> bool {
    op.entity_type@ == "case"@ && op.entity_id@ == id
}

/// The case a contact upsert refers to: the one reference that orders the
/// operations of a package.
pub open spec fn contact_case_dependency(op: SyncOperation) -> Result<Option<Seq<char>>, Seq<char>> {
    if op.action == OperationAction::Upsert && op.entity_type@ == "contact"@ {
        spec_dependency_value(op, "case_id"@)
    } else {
        Ok(None)
    }
}

/// Position `p` holds the pending operation just before `q` on the same entity.
pub open spec fn chain_edge(ops: Seq<SyncOperation>, pending: Seq<usize>, p: int, q: int) -> bool {
    &&& 0 <= p < q < pending.len()
    &&& same_entity(at(ops, pending, p), at(ops, pending, q))
    &&& forall|r: int| p < r < q ==> !same_entity(#[trigger] at(ops, pending, r), at(ops, pending, q))
}

/// Position `p` holds the last pending operation on the case that the contact
/// upsert at `q` refers to.
pub open spec fn case_edge(ops: Seq<SyncOperation>, pending: Seq<usize>, p: int, q: int) -> bool {
    &&& 0 <= p < pending.len()
    &&& 0 <= q < pending.len()
    &&& contact_case_dependency(at(ops, pending, q)) matches Ok(Some(cid))
    &&& is_case(at(ops, pending, p), cid)
    &&& forall|r: int| p < r < pending.len() ==> !is_case(#[trigger] at(ops, pending, r), cid)
}

/// The operation at `q` must be applied after the one at `p`.
pub open spec fn order_edge(ops: Seq<SyncOperation>, pending: Seq<usize>, p: int, q: int) -> bool {
    chain_edge(ops, pending, p, q) || case_edge(ops, pending, p, q)
}

/// Everything the operation at `q` waits for is among `placed`.
pub open spec fn ready(ops: Seq<SyncOperation>, pending: Seq<usize>, placed: Seq<int>, q: int) -> bool {
    forall|p: int| #[trigger] order_edge(ops, pending, p, q) ==> placed.contains(p)
}

/// `sel` lists every pending position once, each after what it waits for,
/// and at each step the smallest position that is ready.
pub open spec fn is_greedy_order(ops: Seq<SyncOperation>, pending: Seq<usize>, sel: Seq<int>) -> bool {
    &&& sel.len() == pending.len()
    &&& sel.no_duplicates()
    &&& forall|k: int| 0 <= k < sel.len() ==> 0 <= #[trigger] sel[k] < pending.len()
    &&& forall|k: int| 0 <= k < sel.len() ==> ready(ops, pending, sel.take(k), #[trigger] sel[k])
    &&& forall|k: int, q: int|
        #![trigger sel[k], ready(ops, pending, sel.take(k), q)]
        0 <= k < sel.len() && 0 <= q < pending.len() && !sel.take(k).contains(q) && ready(
            ops,
            pending,
            sel.take(k),
            q,
        ) ==> sel[k] <= q
}

pub open spec fn dependency_error_at(ops: Seq<SyncOperation>, pending: Seq<usize>, q: int) -> bool {
    &&& 0 <= q < pending.len()
    &&& contact_case_dependency(at(ops, pending, q)) is Err
    &&& forall|j: int| 0 <= j < q ==> (#[trigger] contact_case_dependency(at(ops, pending, j))) is Ok
}

pub open spec fn protocol_error(e: SyncError, m: Seq<char>) -> bool {
    e matches SyncError::Protocol(s) && s@ == m
}

pub open spec fn rank(ops: Seq<SyncOperation>, pending: Seq<usize>, q: int) -> nat {
    if at(ops, pending, q).entity_type@ == "case"@ {
        q as nat
    } else {
        (pending.len() + q) as nat
    }
}

proof fn lemma_edge_raises_rank(ops: Seq<SyncOperation>, pending: Seq<usize>, p: int, q: int)
    requires
        order_edge(ops, pending, p, q),
    ensures
        rank(ops, pending, p) < rank(ops, pending, q),
{
    reveal_strlit("case");
    reveal_strlit("contact");
    if case_edge(ops, pending, p, q) {
        assert(at(ops, pending, q).entity_type@ == "contact"@);
        assert(at(ops, pending, q).entity_type@.len() != "case"@.len());
    }
}

/// Whatever is placed, some unplaced position is ready: the package order
/// has no cycle.
proof fn lemma_ready_exists(ops: Seq<SyncOperation>, pending: Seq<usize>, placed: Seq<int>, u: int)
    requires
        0 <= u < pending.len(),
        !placed.contains(u),
    ensures
        exists|q: int| 0 <= q < pending.len() && !placed.contains(q) && #[trigger] ready(ops, pending, placed, q),
    decreases rank(ops, pending, u),
{
    if ready(ops, pending, placed, u) {
    } else {
        let p = choose|p: int| #[trigger] order_edge(ops, pending, p, u) && !placed.contains(p);
        lemma_edge_raises_rank(ops, pending, p, u);
        lemma_ready_exists(ops, pending, placed, p);
    }
}

pub(crate) fn same_entity_exec(a: &SyncOperation, b: &SyncOperation) -> (r: bool)
    ensures
        r == same_entity(*a, *b),
{
    str_eq(a.entity_type.as_str(), b.entity_type.as_str()) && str_eq(a.entity_id.as_str(), b.entity_id.as_str())
}

/// The pending position just before `q` on the same entity.
fn chain_pred(operations: &Vec<SyncOperation>, pending: &Vec<usize>, q: usize) -> (r: Option<usize>)
    requires
        q < pending.len(),
        forall|p: int| 0 <= p < pending.len() ==> pending[p] < operations.len(),
    ensures
        match r {
            Some(p) => chain_edge(operations@, pending@, p as int, q as int),
            None => forall|p: int| !chain_edge(operations@, pending@, p, q as int),
        },
{
    let mut p: usize = q;
    while p > 0
        invariant
            p <= q < pending.len(),
            forall|j: int| 0 <= j < pending.len() ==> pending[j] < operations.len(),
            forall|r: int| p <= r < q ==> !same_entity(#[trigger] at(operations@, pending@, r), at(operations@, pending@, q as int)),
        decreases p,
    {
        let cand = p - 1;
        if same_entity_exec(&operations[pending[cand]], &operations[pending[q]]) {
            return Some(cand);
        }
        p = cand;
    }
    proof {
        assert forall|p: int| !chain_edge(operations@, pending@, p, q as int) by {
            if 0 <= p < q {
                assert(!same_entity(at(operations@, pending@, p), at(operations@, pending@, q as int)));
            }
        }
    }
    None
}

/// The last pending position that writes case `cid`.
fn last_case_position(operations: &Vec<SyncOperation>, pending: &Vec<usize>, cid: &str) -> (r: Option<usize>)
    requires
        forall|p: int| 0 <= p < pending.len() ==> pending[p] < operations.len(),
    ensures
        match r {
            Some(p) => p < pending.len() && is_case(at(operations@, pending@, p as int), cid@) && forall|j: int|
                p < j < pending.len() ==> !is_case(#[trigger] at(operations@, pending@, j), cid@),
            None => forall|j: int| 0 <= j < pending.len() ==> !is_case(#[trigger] at(operations@, pending@, j), cid@),
        },
{
    let mut p: usize = pending.len();
    while p > 0
        invariant
            p <= pending.len(),
            forall|j: int| 0 <= j < pending.len() ==> pending[j] < operations.len(),
            forall|j: int| p <= j < pending.len() ==> !is_case(#[trigger] at(operations@, pending@, j), cid@),
        decreases p,
    {
        let cand = p - 1;
        let op = &operations[pending[cand]];
        if str_eq(op.entity_type.as_str(), "case") && str_eq(op.entity_id.as_str(), cid) {
            return Some(cand);
        }
        p = cand;
    }
    None
}


pub open spec fn pred_placed(placed: Seq<bool>, pred: Option<usize>) -> bool {
    match pred {
        Some(p) => placed[p as int],
        None => true,
    }
}

pub open spec fn can_go(placed: Seq<bool>, cp: Seq<Option<usize>>, dp: Seq<Option<usize>>, q: int) -> bool {
    !placed[q] && pred_placed(placed, cp[q]) && pred_placed(placed, dp[q])
}

/// The first position that is not placed and whose predecessors are.
fn next_ready(placed: &Vec<bool>, cp: &Vec<Option<usize>>, dp: &Vec<Option<usize>>) -> (r: Option<usize>)
    requires
        cp.len() == placed.len(),
        dp.len() == placed.len(),
        forall|q: int| 0 <= q < cp.len() ==> (#[trigger] cp@[q] matches Some(p) ==> p < placed.len()),
        forall|q: int| 0 <= q < dp.len() ==> (#[trigger] dp@[q] matches Some(p) ==> p < placed.len()),
    ensures
        match r {
            Some(q) => q < placed.len() && can_go(placed@, cp@, dp@, q as int) && forall|j: int|
                0 <= j < q ==> !can_go(placed@, cp@, dp@, j),
            None => forall|j: int| 0 <= j < placed.len() ==> !can_go(placed@, cp@, dp@, j),
        },
{
    let mut q: usize = 0;
    while q < placed.len()
        invariant
            q <= placed.len(),
            cp.len() == placed.len(),
            dp.len() == placed.len(),
            forall|q: int| 0 <= q < cp.len() ==> (#[trigger] cp@[q] matches Some(p) ==> p < placed.len()),
            forall|q: int| 0 <= q < dp.len() ==> (#[trigger] dp@[q] matches Some(p) ==> p < placed.len()),
            forall|j: int| 0 <= j < q ==> !can_go(placed@, cp@, dp@, j),
        decreases placed.len() - q,
    {
        let c = match cp[q] {
            Some(p) => placed[p],
            None => true,
        };
        let d = match dp[q] {
            Some(p) => placed[p],
            None => true,
        };
        if !placed[q] && c && d {
            return Some(q);
        }
        q = q + 1;
    }
    None
}

/// Orders the pending operations of a package: each after the previous
/// pending operation on the same entity, a contact upsert after the last
/// pending operation on the case it refers to, and otherwise by position.
/// A malformed case reference on a contact upsert is refused. `pending`
/// holds positions of `operations` in increasing order.
pub fn stable_dependency_order(operations: &Vec<SyncOperation>, pending: &Vec<usize>) -> (r: Result<Vec<usize>, SyncError>)
    requires
        forall|p: int| 0 <= p < pending.len() ==> pending[p] < operations.len(),
        forall|p: int, q: int| 0 <= p < q < pending.len() ==> pending[p] < pending[q],
    ensures
        match r {
            Ok(order) => (forall|q: int|
                0 <= q < pending.len() ==> (#[trigger] contact_case_dependency(at(operations@, pending@, q))) is Ok)
                && exists|sel: Seq<int>|
                is_greedy_order(operations@, pending@, sel) && order@ == sel.map_values(|p: int| pending@[p]),
            Err(e) => exists|q: int|
                dependency_error_at(operations@, pending@, q) && protocol_error(
                    e,
                    #[trigger] contact_case_dependency(at(operations@, pending@, q))->Err_0,
                ),
        },
{
    let n = pending.len();
    let ghost ops = operations@;
    let ghost pend = pending@;
    let mut deps: Vec<Option<String>> = Vec::new();
    let mut q: usize = 0;
    while q < n
        invariant
            n == pending.len(),
            ops == operations@,
            pend == pending@,
            forall|p: int| 0 <= p < pending.len() ==> pending[p] < operations.len(),
            q <= n,
            deps.len() == q,
            forall|j: int|
                0 <= j < q ==> #[trigger] contact_case_dependency(at(ops, pend, j)) == Ok::<
                    Option<Seq<char>>,
                    Seq<char>,
                >(opt_view(deps@[j])),
        decreases n - q,
    {
        let op = &operations[pending[q]];
        if op.action == OperationAction::Upsert && str_eq(op.entity_type.as_str(), "contact") {
            match dependency_value(op, "case_id") {
                Ok(v) => deps.push(v),
                Err(e) => {
                    proof {
                        assert(dependency_error_at(ops, pend, q as int));
                    }
                    return Err(e);
                },
            }
        } else {
            deps.push(None);
        }
        q = q + 1;
    }
    let mut cp: Vec<Option<usize>> = Vec::new();
    let mut dp: Vec<Option<usize>> = Vec::new();
    let mut placed: Vec<bool> = Vec::new();
    let mut q: usize = 0;
    while q < n
        invariant
            n == pending.len(),
            ops == operations@,
            pend == pending@,
            forall|p: int| 0 <= p < pending.len() ==> pending[p] < operations.len(),
            deps.len() == n,
            forall|j: int|
                0 <= j < n ==> #[trigger] contact_case_dependency(at(ops, pend, j)) == Ok::<
                    Option<Seq<char>>,
                    Seq<char>,
                >(opt_view(deps@[j])),
            q <= n,
            cp.len() == q,
            dp.len() == q,
            placed.len() == q,
            forall|j: int| 0 <= j < q ==> !(#[trigger] placed@[j]),
            forall|j: int| 0 <= j < q ==> (#[trigger] cp@[j] matches Some(p) ==> p < n),
            forall|j: int| 0 <= j < q ==> (#[trigger] dp@[j] matches Some(p) ==> p < n),
            forall|j: int, p: int| 0 <= j < q && 0 <= p < n ==> (#[trigger] chain_edge(ops, pend, p, j) <==> cp@[j] == Some(p as usize)),
            forall|j: int, p: int| 0 <= j < q && 0 <= p < n ==> (#[trigger] case_edge(ops, pend, p, j) <==> dp@[j] == Some(p as usize)),
        decreases n - q,
    {
        let c = chain_pred(operations, pending, q);
        proof {
            assert forall|p: int| 0 <= p < n implies (#[trigger] chain_edge(ops, pend, p, q as int) <==> c == Some(p as usize)) by {
                if chain_edge(ops, pend, p, q as int) {
                    if let Some(p2) = c {
                        if p < p2 {
                            assert(!same_entity(at(ops, pend, p2 as int), at(ops, pend, q as int)));
                        }
                        if p2 < p {
                            assert(!same_entity(at(ops, pend, p), at(ops, pend, q as int)));
                        }
                    }
                }
            }
        }
        cp.push(c);
        let d = match &deps[q] {
            Some(cid) => last_case_position(operations, pending, cid.as_str()),
            None => None,
        };
        proof {
            assert forall|p: int| 0 <= p < n implies (#[trigger] case_edge(ops, pend, p, q as int) <==> d == Some(p as usize)) by {
                if let Some(p2) = d {
                    if case_edge(ops, pend, p, q as int) {
                        if p < p2 {
                            assert(!is_case(at(ops, pend, p2 as int), opt_view(deps@[q as int])->Some_0));
                        }
                        if p2 < p {
                            assert(!is_case(at(ops, pend, p), opt_view(deps@[q as int])->Some_0));
                        }
                    }
                } else {
                    if case_edge(ops, pend, p, q as int) {
                        assert(!is_case(at(ops, pend, p), opt_view(deps@[q as int])->Some_0));
                    }
                }
            }
        }
        dp.push(d);
        placed.push(false);
        q = q + 1;
    }
    proof {
        assert forall|p: int| 0 <= p < n implies (#[trigger] contact_case_dependency(at(ops, pend, p))) is Ok by {
            assert(contact_case_dependency(at(ops, pend, p)) == Ok::<Option<Seq<char>>, Seq<char>>(opt_view(deps@[p])));
        }
    }
    let mut order: Vec<usize> = Vec::new();
    let ghost mut sel: Seq<int> = Seq::empty();
    let ghost mut remaining: Set<int> = set_int_range(0, n as int);
    proof {
        lemma_int_range(0, n as int);
    }
    let mut round: usize = 0;
    while round < n
        invariant
            n == pending.len(),
            ops == operations@,
            pend == pending@,
            forall|p: int| 0 <= p < pending.len() ==> pending[p] < operations.len(),
            cp.len() == n,
            dp.len() == n,
            placed.len() == n,
            forall|j: int| 0 <= j < n ==> (#[trigger] cp@[j] matches Some(p) ==> p < n),
            forall|j: int| 0 <= j < n ==> (#[trigger] dp@[j] matches Some(p) ==> p < n),
            forall|j: int, p: int| 0 <= j < n && 0 <= p < n ==> (#[trigger] chain_edge(ops, pend, p, j) <==> cp@[j] == Some(p as usize)),
            forall|j: int, p: int| 0 <= j < n && 0 <= p < n ==> (#[trigger] case_edge(ops, pend, p, j) <==> dp@[j] == Some(p as usize)),
            forall|p: int| 0 <= p < n ==> (#[trigger] contact_case_dependency(at(ops, pend, p))) is Ok,
            round <= n,
            sel.len() == round,
            order.len() == round,
            forall|p: int| 0 <= p < n ==> (#[trigger] placed@[p] <==> sel.contains(p)),
            forall|k: int| 0 <= k < sel.len() ==> 0 <= #[trigger] sel[k] < n,
            forall|k: int| 0 <= k < sel.len() ==> order@[k] == pend[#[trigger] sel[k]],
            sel.no_duplicates(),
            forall|k: int| 0 <= k < sel.len() ==> ready(ops, pend, sel.take(k), #[trigger] sel[k]),
            forall|k: int, q: int|
                #![trigger sel[k], ready(ops, pend, sel.take(k), q)]
                0 <= k < sel.len() && 0 <= q < n && !sel.take(k).contains(q) && ready(ops, pend, sel.take(k), q)
                    ==> sel[k] <= q,
            remaining.finite(),
            remaining.len() + sel.len() == n,
            forall|p: int| #[trigger] remaining.contains(p) <==> (0 <= p < n && !sel.contains(p)),
        decreases n - round,
    {
        proof {
            assert forall|j: int| 0 <= j < n implies (#[trigger] can_go(placed@, cp@, dp@, j) <==> (!sel.contains(j) && ready(ops, pend, sel, j))) by {
                if can_go(placed@, cp@, dp@, j) {
                    assert forall|p: int| #[trigger] order_edge(ops, pend, p, j) implies sel.contains(p) by {
                        if chain_edge(ops, pend, p, j) {
                            assert(cp@[j] == Some(p as usize));
                        } else {
                            assert(dp@[j] == Some(p as usize));
                        }
                    }
                }
                if !sel.contains(j) && ready(ops, pend, sel, j) {
                    if let Some(p) = cp@[j] {
                        assert(chain_edge(ops, pend, p as int, j));
                        assert(order_edge(ops, pend, p as int, j));
                    }
                    if let Some(p) = dp@[j] {
                        assert(case_edge(ops, pend, p as int, j));
                        assert(order_edge(ops, pend, p as int, j));
                    }
                }
            }
        }
        let next = next_ready(&placed, &cp, &dp);
        let q = match next {
            Some(q) => q,
            None => {
                proof {
                    if forall|a: int| !remaining.contains(a) {
                        assert(remaining =~= Set::<int>::empty());
                    }
                    let u = choose|a: int| remaining.contains(a);
                    lemma_ready_exists(ops, pend, sel, u);
                    let w = choose|w: int| 0 <= w < n && !sel.contains(w) && #[trigger] ready(ops, pend, sel, w);
                    assert(can_go(placed@, cp@, dp@, w));
                }
                return Err(SyncError::PackageDependencyConflict);
            },
        };
        let ghost old_sel = sel;
        let ghost old_placed = placed@;
        placed.set(q, true);
        order.push(pending[q]);
        proof {
            sel = sel.push(q as int);
            remaining = remaining.remove(q as int);
            assert(sel.take(round as int) =~= old_sel);
            assert forall|p: int| 0 <= p < n implies (#[trigger] placed@[p] <==> sel.contains(p)) by {
                if p != q {
                    assert(sel.contains(p) <==> old_sel.contains(p)) by {
                        if sel.contains(p) {
                            let k = choose|k: int| 0 <= k < sel.len() && sel[k] == p;
                            assert(old_sel[k] == p);
                        }
                        if old_sel.contains(p) {
                            let k = choose|k: int| 0 <= k < old_sel.len() && old_sel[k] == p;
                            assert(sel[k] == p);
                        }
                    }
                } else {
                    assert(sel[round as int] == p);
                }
            }
            assert forall|p: int| #[trigger] remaining.contains(p) <==> (0 <= p < n && !sel.contains(p)) by {
                if 0 <= p < n && p != q {
                    assert(placed@[p] == old_placed[p]);
                }
                if p == q {
                    assert(sel[round as int] == p);
                }
            }
            assert forall|k: int| 0 <= k <= round implies #[trigger] sel.take(k) =~= old_sel.take(k) by {}
            assert forall|k: int, q2: int|
                #![trigger sel[k], ready(ops, pend, sel.take(k), q2)]
                0 <= k < sel.len() && 0 <= q2 < n && !sel.take(k).contains(q2) && ready(ops, pend, sel.take(k), q2)
                    implies sel[k] <= q2 by {
                if k < round {
                    assert(sel.take(k) =~= old_sel.take(k));
                    assert(old_sel[k] <= q2);
                } else {
                    assert(sel.take(k) =~= old_sel);
                    if q2 < q {
                        assert(!can_go(old_placed, cp@, dp@, q2));
                    }
                }
            }
        }
        round = round + 1;
    }
    proof {
        assert(order@ =~= sel.map_values(|p: int| pend[p]));
        assert(is_greedy_order(ops, pend, sel));
    }
    Ok(order)
}


/// In a package order, every operation comes after each operation it waits
/// for: the previous pending operation on its entity and, for a contact
/// upsert, the last pending operation on its case.
pub proof fn lemma_package_order_respects_dependencies(
    ops: Seq<SyncOperation>,
    pending: Seq<usize>,
    sel: Seq<int>,
    a: int,
    b: int,
)
    requires
        is_greedy_order(ops, pending, sel),
        0 <= a < sel.len(),
        0 <= b < sel.len(),
        order_edge(ops, pending, sel[a], sel[b]),
    ensures
        a < b,
{
    assert(ready(ops, pending, sel.take(b), sel[b]));
    assert(sel.take(b).contains(sel[a]));
    let j = choose|j: int| 0 <= j < sel.take(b).len() && sel.take(b)[j] == sel[a];
    assert(sel[j] == sel[a]);
}

proof fn lemma_prefixes_agree(ops: Seq<SyncOperation>, pending: Seq<usize>, s1: Seq<int>, s2: Seq<int>, k: int)
    requires
        is_greedy_order(ops, pending, s1),
        is_greedy_order(ops, pending, s2),
        0 <= k <= s1.len(),
    ensures
        s1.take(k) =~= s2.take(k),
    decreases k,
{
    if k > 0 {
        let i = k - 1;
        lemma_prefixes_agree(ops, pending, s1, s2, i);
        let t = s1.take(i);
        assert(ready(ops, pending, t, s1[i]));
        assert(ready(ops, pending, s2.take(i), s2[i]));
        assert(!t.contains(s1[i])) by {
            if t.contains(s1[i]) {
                let j = choose|j: int| 0 <= j < t.len() && t[j] == s1[i];
                assert(s1[j] == s1[i]);
            }
        }
        assert(!t.contains(s2[i])) by {
            if t.contains(s2[i]) {
                let j = choose|j: int| 0 <= j < t.len() && t[j] == s2[i];
                assert(s2[j] == s2[i]);
            }
        }
        assert(s1[i] <= s2[i]);
        assert(s2[i] <= s1[i]);
        assert(s1.take(k) =~= t.push(s1[i]));
        assert(s2.take(k) =~= s2.take(i).push(s2[i]));
    }
}

/// The package order is determined by the package: two orders that both
/// meet the rule are the same.
pub proof fn lemma_package_order_is_unique(
    ops: Seq<SyncOperation>,
    pending: Seq<usize>,
    s1: Seq<int>,
    s2: Seq<int>,
)
    requires
        is_greedy_order(ops, pending, s1),
        is_greedy_order(ops, pending, s2),
    ensures
        s1 == s2,
{
    lemma_prefixes_agree(ops, pending, s1, s2, s1.len() as int);
    assert(s1 =~= s1.take(s1.len() as int));
    assert(s2 =~= s2.take(s2.len() as int));
}


/// The entity an upsert refers to: a case's judge is a contact, a contact's
/// case is a case.
pub open spec fn spec_dependency_target(op: SyncOperation) -> Result<Option<(Seq<char>, Seq<char>)>, Seq<char>> {
    if op.action == OperationAction::Upsert && op.entity_type@ == "case"@ {
        match spec_dependency_value(op, "judge_id"@) {
            Ok(Some(id)) => Ok(Some(("contact"@, id))),
            Ok(None) => Ok(None),
            Err(m) => Err(m),
        }
    } else if op.action == OperationAction::Upsert && op.entity_type@ == "contact"@ {
        match spec_dependency_value(op, "case_id"@) {
            Ok(Some(id)) => Ok(Some(("case"@, id))),
            Ok(None) => Ok(None),
            Err(m) => Err(m),
        }
    } else {
        Ok(None)
    }
}

pub open spec fn target_view(t: Option<(String, String)>) -> Option<(Seq<char>, Seq<char>)> {
    match t {
        Some((a, b)) => Some((a@, b@)),
        None => None,
    }
}

/// The entity that an upsert in a package refers to, if any.
pub fn dependency_target(operation: &SyncOperation) -> (r: Result<Option<(String, String)>, SyncError>)
    ensures
        match spec_dependency_target(*operation) {
            Ok(t) => r matches Ok(x) && target_view(x) == t,
            Err(m) => r matches Err(e) && protocol_error(e, m),
        },
{
    if operation.action != OperationAction::Upsert {
        return Ok(None);
    }
    let (field, target) = if str_eq(operation.entity_type.as_str(), "case") {
        ("judge_id", "contact")
    } else if str_eq(operation.entity_type.as_str(), "contact") {
        ("case_id", "case")
    } else {
        return Ok(None);
    };
    match dependency_value(operation, field) {
        Ok(Some(id)) => Ok(Some((owned(target), id))),
        Ok(None) => Ok(None),
        Err(e) => Err(e),
    }
}

/// The action of the last operation in `ops` on entity `t`.
pub open spec fn final_action(ops: Seq<SyncOperation>, t: (Seq<char>, Seq<char>)) -> Option<OperationAction>
    decreases ops.len(),
{
    if ops.len() == 0 {
        None
    } else if ops.last().entity_type@ == t.0 && ops.last().entity_id@ == t.1 {
        Some(ops.last().action)
    } else {
        final_action(ops.drop_last(), t)
    }
}

pub(crate) fn final_action_of(operations: &Vec<SyncOperation>, entity_type: &str, entity_id: &str) -> (r: Option<OperationAction>)
    ensures
        r == final_action(operations@, (entity_type@, entity_id@)),
{
    let mut j: usize = operations.len();
    assert(operations@.take(j as int) =~= operations@);
    while j > 0
        invariant
            j <= operations.len(),
            final_action(operations@, (entity_type@, entity_id@)) == final_action(
                operations@.take(j as int),
                (entity_type@, entity_id@),
            ),
        decreases j,
    {
        let op = &operations[j - 1];
        assert(operations@.take(j as int).drop_last() =~= operations@.take(j - 1));
        if str_eq(op.entity_type.as_str(), entity_type) && str_eq(op.entity_id.as_str(), entity_id) {
            return Some(op.action);
        }
        j = j - 1;
    }
    None
}

/// The dependency of the operation at `k` holds: it refers to nothing, to
/// an entity the package upserts last, or to one the receiver has
/// (`has[k]`).
pub open spec fn dependency_passes(ops: Seq<SyncOperation>, has: Seq<bool>, k: int) -> bool {
    match spec_dependency_target(ops[k]) {
        Err(_) => false,
        Ok(None) => true,
        Ok(Some(t)) => match final_action(ops, t) {
            Some(a) => a == OperationAction::Upsert,
            None => has[k],
        },
    }
}

/// The error for an operation whose dependency fails.
pub open spec fn dependency_failure(ops: Seq<SyncOperation>, has: Seq<bool>, k: int, e: SyncError) -> bool {
    match spec_dependency_target(ops[k]) {
        Err(m) => protocol_error(e, m),
        Ok(None) => false,
        Ok(Some(t)) => match final_action(ops, t) {
            Some(_) => e is PackageDependencyConflict,
            None => e is PackageDependencyMissing,
        },
    }
}

/// Checks, before anything is written, that every upsert of a package refers
/// only to entities that exist after the package: ones the package upserts
/// last, or ones the receiver has. `receiver_has[k]` tells whether the
/// receiver holds the entity that operation `k` refers to. The first
/// operation in package order that fails decides the error.
pub fn validate_package_dependencies(operations: &Vec<SyncOperation>, receiver_has: &Vec<bool>) -> (r: Result<(), SyncError>)
    requires
        receiver_has.len() == operations.len(),
    ensures
        match r {
            Ok(()) => forall|k: int| 0 <= k < operations.len() ==> dependency_passes(operations@, receiver_has@, k),
            Err(e) => exists|k: int|
                0 <= k < operations.len() && !dependency_passes(operations@, receiver_has@, k) && (forall|j: int|
                    0 <= j < k ==> dependency_passes(operations@, receiver_has@, j)) && #[trigger] dependency_failure(
                    operations@,
                    receiver_has@,
                    k,
                    e,
                ),
        },
{
    let mut k: usize = 0;
    while k < operations.len()
        invariant
            receiver_has.len() == operations.len(),
            k <= operations.len(),
            forall|j: int| 0 <= j < k ==> dependency_passes(operations@, receiver_has@, j),
        decreases operations.len() - k,
    {
        match dependency_target(&operations[k]) {
            Err(e) => {
                assert(dependency_failure(operations@, receiver_has@, k as int, e));
                return Err(e);
            },
            Ok(None) => {},
            Ok(Some((entity_type, entity_id))) => {
                match final_action_of(operations, entity_type.as_str(), entity_id.as_str()) {
                    Some(OperationAction::Upsert) => {},
                    Some(OperationAction::Tombstone) => {
                        let e = SyncError::PackageDependencyConflict;
                        assert(dependency_failure(operations@, receiver_has@, k as int, e));
                        return Err(e);
                    },
                    None => {
                        if !receiver_has[k] {
                            let e = SyncError::PackageDependencyMissing;
                            assert(dependency_failure(operations@, receiver_has@, k as int, e));
                            return Err(e);
                        }
                    },
                }
            },
        }
        k = k + 1;
    }
    Ok(())
}


/// The hash recorded for `key`, if any.
pub open spec fn lookup_hash(hs: Seq<(String, String)>, key: Seq<char>) -> Option<Seq<char>>
    decreases hs.len(),
{
    if hs.len() == 0 {
        None
    } else if hs[0].0@ == key {
        Some(hs[0].1@)
    } else {
        lookup_hash(hs.subrange(1, hs.len() as int), key)
    }
}

pub(crate) fn lookup_hash_of(hs: &Vec<(String, String)>, key: &str) -> (r: Option<String>)
    ensures
        opt_view(r) == lookup_hash(hs@, key@),
{
    let mut i: usize = 0;
    assert(hs@.subrange(0, hs@.len() as int) == hs@);
    while i < hs.len()
        invariant
            i <= hs@.len(),
            lookup_hash(hs@, key@) == lookup_hash(hs@.subrange(i as int, hs@.len() as int), key@),
        decreases hs@.len() - i,
    {
        let ghost rest = hs@.subrange(i as int, hs@.len() as int);
        assert(rest.subrange(1, rest.len() as int) == hs@.subrange(i + 1, hs@.len() as int));
        if str_eq(hs[i].0.as_str(), key) {
            return Some(hs[i].1.clone());
        }
        i = i + 1;
    }
    None
}

pub open spec fn strings(v: Seq<String>) -> Seq<Seq<char>> {
    v.map_values(|s: String| s@)
}

/// The fields of `clean`, in order, whose hash at the operation's base
/// differs from the hash they have now.
pub open spec fn changed_since_base(
    clean: Seq<(String, JsonValue)>,
    base: Seq<(String, String)>,
    now: Seq<(String, String)>,
) -> Seq<Seq<char>>
    decreases clean.len(),
{
    if clean.len() == 0 {
        Seq::empty()
    } else {
        let rest = changed_since_base(clean.drop_last(), base, now);
        let k = clean.last().0@;
        if lookup_hash(base, k) != lookup_hash(now, k) {
            rest.push(k)
        } else {
            rest
        }
    }
}

pub open spec fn has_key(clean: Seq<(String, JsonValue)>, k: Seq<char>) -> bool {
    exists|i: int| 0 <= i < clean.len() && (#[trigger] clean[i]).0@ == k
}

/// The fields of a group, in group order, that `clean` carries.
pub open spec fn present_fields(fields: Seq<Seq<char>>, clean: Seq<(String, JsonValue)>) -> Seq<Seq<char>>
    decreases fields.len(),
{
    if fields.len() == 0 {
        Seq::empty()
    } else {
        let rest = present_fields(fields.drop_last(), clean);
        if has_key(clean, fields.last()) {
            rest.push(fields.last())
        } else {
            rest
        }
    }
}

/// The conflicts an upsert raises field by field: none when the local
/// revision is not newer than the operation's base.
pub open spec fn raw_upsert_conflicts(
    op: SyncOperation,
    clean: Seq<(String, JsonValue)>,
    local_revision: i64,
    now: Seq<(String, String)>,
) -> Seq<Seq<char>> {
    if local_revision > op.base_revision {
        changed_since_base(clean, op.base_field_hashes@, now)
    } else {
        Seq::empty()
    }
}

fn has_key_exec(clean: &Vec<(String, JsonValue)>, k: &str) -> (r: bool)
    ensures
        r == has_key(clean@, k@),
{
    let mut i: usize = 0;
    while i < clean.len()
        invariant
            i <= clean.len(),
            forall|j: int| 0 <= j < i ==> (#[trigger] clean@[j]).0@ != k@,
        decreases clean.len() - i,
    {
        if str_eq(clean[i].0.as_str(), k) {
            assert(clean@[i as int].0@ == k@);
            return true;
        }
        i = i + 1;
    }
    false
}

/// The fields of an incoming operation that conflict with local changes,
/// or `None` when the operation names an atomic group that its entity type
/// does not have. A tombstone conflicts as a whole when the entity changed
/// locally since the operation's base and is not already deleted. An upsert
/// conflicts on each field whose hash changed since the base; when the
/// operation belongs to an atomic group and anything conflicts, the whole
/// group, as far as the operation carries it, conflicts.
pub open spec fn spec_incoming_conflicts(
    op: SyncOperation,
    clean: Seq<(String, JsonValue)>,
    local_revision: i64,
    locally_tombstoned: bool,
    now: Seq<(String, String)>,
) -> Option<Seq<Seq<char>>> {
    if op.action == OperationAction::Tombstone {
        Some(
            if local_revision > op.base_revision && !locally_tombstoned {
                seq!["_tombstone"@]
            } else {
                Seq::empty()
            },
        )
    } else {
        let raw = raw_upsert_conflicts(op, clean, local_revision, now);
        match op.atomic_group {
            Some(g) if raw.len() > 0 => match spec_policy(op.entity_type@) {
                None => None,
                Some(p) => match group_named(p.atomic_groups, g@, 0) {
                    Some(fields) => Some(present_fields(fields, clean)),
                    None => None,
                },
            },
            _ => Some(raw),
        }
    }
}

/// The error for an operation whose atomic group cannot be looked up.
pub open spec fn atomic_group_error(op: SyncOperation, e: SyncError) -> bool {
    match op.atomic_group {
        Some(g) => match spec_policy(op.entity_type@) {
            None => e matches SyncError::EntityNotAllowed(s) && s@ == op.entity_type@,
            Some(p) => e matches SyncError::Protocol(m) && m@ == "未知原子字段组: "@ + op.entity_type@ + "/"@ + g@,
        },
        None => false,
    }
}

pub fn incoming_conflicts(
    operation: &SyncOperation,
    clean: &Vec<(String, JsonValue)>,
    local_revision: i64,
    locally_tombstoned: bool,
    current_hashes: &Vec<(String, String)>,
) -> (r: Result<Vec<String>, SyncError>)
    ensures
        match spec_incoming_conflicts(*operation, clean@, local_revision, locally_tombstoned, current_hashes@) {
            Some(c) => r matches Ok(v) && strings(v@) == c,
            None => r matches Err(e) && atomic_group_error(*operation, e),
        },
{
    let mut conflicts: Vec<String> = Vec::new();
    if operation.action == OperationAction::Tombstone {
        if local_revision > operation.base_revision && !locally_tombstoned {
            conflicts.push(owned("_tombstone"));
        }
        proof {
            assert(strings(conflicts@) =~= (if local_revision > operation.base_revision && !locally_tombstoned {
                seq!["_tombstone"@]
            } else {
                Seq::<Seq<char>>::empty()
            }));
        }
        return Ok(conflicts);
    }
    if local_revision > operation.base_revision {
        let mut i: usize = 0;
        while i < clean.len()
            invariant
                i <= clean.len(),
                strings(conflicts@) == changed_since_base(
                    clean@.take(i as int),
                    operation.base_field_hashes@,
                    current_hashes@,
                ),
            decreases clean.len() - i,
        {
            let key = clean[i].0.as_str();
            let base = lookup_hash_of(&operation.base_field_hashes, key);
            let now = lookup_hash_of(current_hashes, key);
            let differs = match (&base, &now) {
                (Some(a), Some(b)) => !str_eq(a.as_str(), b.as_str()),
                (None, None) => false,
                _ => true,
            };
            proof {
                assert(clean@.take(i + 1).drop_last() =~= clean@.take(i as int));
                assert(differs == (opt_view(base) != opt_view(now)));
            }
            if differs {
                conflicts.push(clean[i].0.clone());
            }
            proof {
                assert(strings(conflicts@) =~= changed_since_base(
                    clean@.take(i + 1),
                    operation.base_field_hashes@,
                    current_hashes@,
                ));
            }
            i = i + 1;
        }
        assert(clean@.take(clean.len() as int) =~= clean@);
    } else {
        assert(strings(conflicts@) =~= Seq::<Seq<char>>::empty());
    }
    if conflicts.len() > 0 {
        if let Some(group) = &operation.atomic_group {
            let fields = match atomic_group_fields(operation.entity_type.as_str(), group.as_str()) {
                Ok(f) => f,
                Err(e) => return Err(e),
            };
            let mut grouped: Vec<String> = Vec::new();
            let mut j: usize = 0;
            while j < fields.len()
                invariant
                    j <= fields.len(),
                    strings(grouped@) == present_fields(strs(fields@).take(j as int), clean@),
                decreases fields.len() - j,
            {
                proof {
                    assert(strs(fields@).take(j + 1).drop_last() =~= strs(fields@).take(j as int));
                }
                if has_key_exec(clean, fields[j]) {
                    grouped.push(owned(fields[j]));
                }
                proof {
                    assert(strings(grouped@) =~= present_fields(strs(fields@).take(j + 1), clean@));
                }
                j = j + 1;
            }
            assert(strs(fields@).take(fields.len() as int) =~= strs(fields@));
            return Ok(grouped);
        }
    }
    Ok(conflicts)
}


/// What the receiver recorded when it applied an operation id.
#[derive(Debug)]
pub struct AppliedRecord {
    pub source_device_id: String,
    pub source_sequence: i64,
    pub payload_hash: String,
}

/// The receiver's revision record of an entity.
#[derive(Debug)]
pub struct EntityRevision {
    pub revision: i64,
    pub field_hashes: Vec<(String, String)>,
    pub tombstoned: bool,
}

/// The same operation arriving again in the same signed event.
pub open spec fn is_replay(a: AppliedRecord, source_device_id: Seq<char>, source_sequence: u64, payload_hash: Seq<char>) -> bool {
    a.source_device_id@ == source_device_id && a.source_sequence == source_sequence as i64 && a.payload_hash@
        == payload_hash
}

pub open spec fn reused_id_error(e: SyncError) -> bool {
    e matches SyncError::Integrity(m) && m@ == "operation_id 已被不同来源或载荷使用"@
}

/// Tells a new operation (`false`) from a replay of one already applied
/// from the same event (`true`); an operation id already used by another
/// source, sequence or payload is refused.
pub fn replay_check(
    already: &Option<AppliedRecord>,
    source_device_id: &str,
    source_sequence: u64,
    payload_hash: &str,
) -> (r: Result<bool, SyncError>)
    ensures
        match already {
            None => r == Ok::<bool, SyncError>(false),
            Some(a) => if is_replay(*a, source_device_id@, source_sequence, payload_hash@) {
                r == Ok::<bool, SyncError>(true)
            } else {
                r matches Err(e) && reused_id_error(e)
            },
        },
{
    match already {
        None => Ok(false),
        Some(a) => {
            if str_eq(a.source_device_id.as_str(), source_device_id) && a.source_sequence == source_sequence as i64
                && str_eq(a.payload_hash.as_str(), payload_hash) {
                Ok(true)
            } else {
                Err(SyncError::Integrity(owned("operation_id 已被不同来源或载荷使用")))
            }
        },
    }
}

/// The fields of `clean`, in order, that are not in `drop`.
pub open spec fn without(clean: Seq<(String, JsonValue)>, drop: Seq<Seq<char>>) -> Seq<(String, JsonValue)>
    decreases clean.len(),
{
    if clean.len() == 0 {
        Seq::empty()
    } else {
        let rest = without(clean.drop_last(), drop);
        if drop.contains(clean.last().0@) {
            rest
        } else {
            rest.push(clean.last())
        }
    }
}

pub open spec fn field_names(fields: Seq<(String, JsonValue)>) -> Seq<Seq<char>> {
    fields.map_values(|f: (String, JsonValue)| f.0@)
}

fn clone_strings(v: &Vec<String>) -> (r: Vec<String>)
    ensures
        r@ == v@,
{
    let mut out: Vec<String> = Vec::new();
    let mut i: usize = 0;
    while i < v.len()
        invariant
            i <= v.len(),
            out@ == v@.take(i as int),
        decreases v.len() - i,
    {
        out.push(v[i].clone());
        assert(out@ =~= v@.take(i + 1));
        i = i + 1;
    }
    assert(v@.take(v.len() as int) =~= v@);
    out
}

/// What the receiver writes for an incoming operation.
#[derive(Debug)]
pub enum EntityWrite {
    /// Write these fields, in this order, with the operation's values.
    Upsert(Vec<String>),
    Tombstone,
    Nothing,
}

/// The receiver's step for one incoming operation: a replay changes
/// nothing; otherwise the entity write, the entity's tombstone flag and
/// revision afterwards, and what to report.
#[derive(Debug)]
pub enum IncomingStep {
    Duplicate(ApplyOutcome),
    Apply { write: EntityWrite, tombstoned: bool, next_revision: i64, outcome: ApplyOutcome },
}

pub open spec fn local_revision_of(revision: Option<EntityRevision>) -> i64 {
    match revision {
        Some(r) => r.revision,
        None => 0,
    }
}

pub open spec fn max_i64(a: i64, b: i64) -> i64 {
    if a >= b {
        a
    } else {
        b
    }
}

/// The hashes the entity's fields have now: of its current row where it
/// exists, else those stored with its revision.
pub open spec fn now_hashes(revision: Option<EntityRevision>, current: Option<Vec<(String, String)>>) -> Seq<(String, String)> {
    match current {
        Some(c) => c@,
        None => match revision {
            Some(r) => r.field_hashes@,
            None => Seq::empty(),
        },
    }
}

/// The step taken for a new, authentic, allowed operation once its
/// conflicts are known.
pub open spec fn apply_step(
    op: SyncOperation,
    revision: Option<EntityRevision>,
    conflicts: Seq<Seq<char>>,
    step: IncomingStep,
) -> bool {
    let safe = without(op.changed_fields@, conflicts);
    let locally_tombstoned = match revision {
        Some(r) => r.tombstoned,
        None => false,
    };
    &&& step matches IncomingStep::Apply { write, tombstoned, next_revision, outcome }
    &&& next_revision == max_i64(local_revision_of(revision), op.base_revision) + 1
    &&& outcome.operation_id@ == op.operation_id@
    &&& !outcome.duplicate
    &&& strings(outcome.conflict_fields@) == conflicts
    &&& if op.action == OperationAction::Upsert && safe.len() > 0 {
        write matches EntityWrite::Upsert(w) && strings(w@) == field_names(safe) && !tombstoned && strings(
            outcome.applied_fields@,
        ) == field_names(safe)
    } else if op.action == OperationAction::Tombstone && conflicts.len() == 0 {
        write is Tombstone && tombstoned && strings(outcome.applied_fields@) == seq!["_tombstone"@]
    } else {
        write is Nothing && tombstoned == locally_tombstoned && outcome.applied_fields@.len() == 0
    }
}

/// Decides what the receiver does with one incoming operation from the
/// device `source_device_id`, given what it already applied under this id,
/// the entity's revision record and the hashes of the entity's current
/// fields (`None` when the entity has no row). A replay is reported as a
/// duplicate; an id reused by another source or payload, an operation whose
/// author is not the sending device, and fields that may not sync are
/// refused. Otherwise the fields that do not conflict are written, a
/// tombstone without conflict deletes the entity, and the revision moves
/// past both the local one and the operation's base.
pub fn plan_incoming(
    operation: &SyncOperation,
    source_device_id: &str,
    source_sequence: u64,
    payload_hash: &str,
    already: &Option<AppliedRecord>,
    revision: &Option<EntityRevision>,
    current_hashes: &Option<Vec<(String, String)>>,
) -> (r: Result<IncomingStep, SyncError>)
    requires
        local_revision_of(*revision) < i64::MAX,
        operation.base_revision < i64::MAX,
    ensures
        match *already {
            Some(a) => if is_replay(a, source_device_id@, source_sequence, payload_hash@) {
                r matches Ok(IncomingStep::Duplicate(o)) && o.operation_id@ == operation.operation_id@ && o.duplicate
                    && o.applied_fields@.len() == 0 && o.conflict_fields@.len() == 0
            } else {
                r matches Err(e) && reused_id_error(e)
            },
            None => if operation.author_device_id@ != source_device_id@ {
                r matches Err(SyncError::Integrity(m)) && m@ == "操作作者与信封设备不一致"@
            } else if !fields_pass(operation.entity_type@, operation.changed_fields@) {
                r matches Err(e) && fields_refusal(operation.entity_type@, operation.changed_fields@, e)
            } else {
                match spec_incoming_conflicts(
                    *operation,
                    operation.changed_fields@,
                    local_revision_of(*revision),
                    match *revision {
                        Some(rv) => rv.tombstoned,
                        None => false,
                    },
                    now_hashes(*revision, *current_hashes),
                ) {
                    Some(c) => r matches Ok(step) && apply_step(*operation, *revision, c, step),
                    None => r matches Err(e) && atomic_group_error(*operation, e),
                }
            },
        },
{
    match replay_check(already, source_device_id, source_sequence, payload_hash) {
        Err(e) => return Err(e),
        Ok(true) => {
            return Ok(
                IncomingStep::Duplicate(
                    ApplyOutcome {
                        operation_id: operation.operation_id.clone(),
                        applied_fields: Vec::new(),
                        conflict_fields: Vec::new(),
                        duplicate: true,
                    },
                ),
            );
        },
        Ok(false) => {},
    }
    if !str_eq(operation.author_device_id.as_str(), source_device_id) {
        return Err(SyncError::Integrity(owned("操作作者与信封设备不一致")));
    }
    match check_fields(operation.entity_type.as_str(), &operation.changed_fields) {
        Ok(()) => {},
        Err(e) => return Err(e),
    }
    let clean = &operation.changed_fields;
    let (local_revision, locally_tombstoned) = match revision {
        Some(rv) => (rv.revision, rv.tombstoned),
        None => (0i64, false),
    };
    let empty: Vec<(String, String)> = Vec::new();
    let now: &Vec<(String, String)> = match current_hashes {
        Some(c) => c,
        None => match revision {
            Some(rv) => &rv.field_hashes,
            None => &empty,
        },
    };
    proof {
        assert(now@ == now_hashes(*revision, *current_hashes));
    }
    let conflicts = match incoming_conflicts(operation, clean, local_revision, locally_tombstoned, now) {
        Ok(c) => c,
        Err(e) => return Err(e),
    };
    let ghost cv = strings(conflicts@);
    let mut safe: Vec<String> = Vec::new();
    let ghost mut safe_fields: Seq<(String, JsonValue)> = Seq::empty();
    let mut i: usize = 0;
    while i < clean.len()
        invariant
            i <= clean.len(),
            cv == strings(conflicts@),
            safe_fields == without(clean@.take(i as int), cv),
            strings(safe@) == field_names(safe_fields),
        decreases clean.len() - i,
    {
        let mut dropped = false;
        let mut j: usize = 0;
        while j < conflicts.len()
            invariant
                j <= conflicts.len(),
                i < clean.len(),
                cv == strings(conflicts@),
                dropped == exists|k: int| 0 <= k < j && (#[trigger] conflicts@[k])@ == clean@[i as int].0@,
            decreases conflicts.len() - j,
        {
            if str_eq(conflicts[j].as_str(), clean[i].0.as_str()) {
                dropped = true;
            }
            j = j + 1;
        }
        proof {
            assert(clean@.take(i + 1).drop_last() =~= clean@.take(i as int));
            assert(dropped == cv.contains(clean@[i as int].0@)) by {
                if dropped {
                    let k = choose|k: int| 0 <= k < conflicts.len() && (#[trigger] conflicts@[k])@ == clean@[i as int].0@;
                    assert(cv[k] == clean@[i as int].0@);
                }
                if cv.contains(clean@[i as int].0@) {
                    let k = choose|k: int| 0 <= k < cv.len() && cv[k] == clean@[i as int].0@;
                    assert(conflicts@[k]@ == clean@[i as int].0@);
                }
            }
        }
        if !dropped {
            let ghost before = safe@;
            let ghost old_sf = safe_fields;
            safe.push(clean[i].0.clone());
            proof {
                safe_fields = safe_fields.push(clean@[i as int]);
                assert(safe@ == before.push(clean@[i as int].0));
                assert(field_names(safe_fields) =~= field_names(old_sf).push(clean@[i as int].0@));
                assert(strings(safe@) =~= strings(before).push(clean@[i as int].0@));
            }
        }
        i = i + 1;
    }
    assert(clean@.take(clean.len() as int) =~= clean@);
    let next_revision = if local_revision >= operation.base_revision {
        local_revision + 1
    } else {
        operation.base_revision + 1
    };
    let mut applied: Vec<String> = Vec::new();
    let write;
    let tombstoned;
    if operation.action == OperationAction::Upsert && safe.len() > 0 {
        applied = clone_strings(&safe);
        write = EntityWrite::Upsert(safe);
        tombstoned = false;
    } else if operation.action == OperationAction::Tombstone && conflicts.len() == 0 {
        applied.push(owned("_tombstone"));
        assert(strings(applied@) =~= seq!["_tombstone"@]);
        write = EntityWrite::Tombstone;
        tombstoned = true;
    } else {
        write = EntityWrite::Nothing;
        tombstoned = locally_tombstoned;
    }
    Ok(
        IncomingStep::Apply {
            write,
            tombstoned,
            next_revision,
            outcome: ApplyOutcome {
                operation_id: operation.operation_id.clone(),
                applied_fields: applied,
                conflict_fields: conflicts,
                duplicate: false,
            },
        },
    )
}


/// The hash of each field from the compact JSON bytes of its value: the
/// lowercase hex SHA-256 of the bytes.
pub fn hash_fields(serialized: &Vec<(String, Vec<u8>)>) -> (r: Vec<(String, String)>)
    ensures
        r@.len() == serialized@.len(),
        forall|i: int|
            0 <= i < r@.len() ==> (#[trigger] r@[i]).0@ == serialized@[i].0@ && r@[i].1@ == spec_hex(
                sha256_digest(serialized@[i].1@),
            ),
{
    let mut out: Vec<(String, String)> = Vec::new();
    let mut i: usize = 0;
    while i < serialized.len()
        invariant
            i <= serialized.len(),
            out@.len() == i,
            forall|j: int|
                0 <= j < i ==> (#[trigger] out@[j]).0@ == serialized@[j].0@ && out@[j].1@ == spec_hex(
                    sha256_digest(serialized@[j].1@),
                ),
        decreases serialized.len() - i,
    {
        let h = sha256_hex(serialized[i].1.as_slice());
        out.push((serialized[i].0.clone(), h));
        i = i + 1;
    }
    out
}

/// An operation id occurs twice in the package.
pub open spec fn ids_repeat(ops: Seq<SyncOperation>) -> bool {
    exists|i: int, j: int| 0 <= i < j < ops.len() && #[trigger] same_id(ops[i], ops[j])
}

pub open spec fn same_id(a: SyncOperation, b: SyncOperation) -> bool {
    a.operation_id@ == b.operation_id@
}

/// The id of the operation at `k` was used before by another source or
/// payload.
pub open spec fn reused_at(
    applied: Seq<Option<AppliedRecord>>,
    k: int,
    source_device_id: Seq<char>,
    source_sequence: u64,
    payload_hash: Seq<char>,
) -> bool {
    applied[k] matches Some(a) && !is_replay(a, source_device_id, source_sequence, payload_hash)
}

/// The positions of the operations not applied before, in order.
pub open spec fn new_positions(applied: Seq<Option<AppliedRecord>>) -> Seq<usize>
    decreases applied.len(),
{
    if applied.len() == 0 {
        Seq::empty()
    } else {
        let rest = new_positions(applied.drop_last());
        if applied.last() is None {
            rest.push((applied.len() - 1) as usize)
        } else {
            rest
        }
    }
}

/// The outcome reported for an operation of the package that was applied
/// before from this very event.
pub open spec fn duplicate_outcome(o: ApplyOutcome, op: SyncOperation) -> bool {
    o.operation_id@ == op.operation_id@ && o.duplicate && o.applied_fields@.len() == 0 && o.conflict_fields@.len() == 0
}

/// Sorts the operations of an authenticated event: a repeated operation id
/// within the event is refused; an operation applied before from this very
/// event (`applied[k]` records how it was applied) is reported as a
/// duplicate; one whose id was used by another source or payload is refused;
/// the others are pending, in order.
pub fn classify_package_operations(
    operations: &Vec<SyncOperation>,
    applied: &Vec<Option<AppliedRecord>>,
    source_device_id: &str,
    source_sequence: u64,
    payload_hash: &str,
) -> (r: Result<(Vec<usize>, Vec<Option<ApplyOutcome>>), SyncError>)
    requires
        applied.len() == operations.len(),
    ensures
        ids_repeat(operations@) ==> (r matches Err(SyncError::Integrity(m)) && m@ == "signed event contains duplicate operation_id"@),
        !ids_repeat(operations@) && (exists|k: int|
            0 <= k < applied.len() && #[trigger] reused_at(applied@, k, source_device_id@, source_sequence, payload_hash@)) ==> (r matches Err(e) && reused_id_error(e)),
        r matches Ok((pending, outcomes)) ==> {
            &&& !ids_repeat(operations@)
            &&& pending@ == new_positions(applied@)
            &&& outcomes@.len() == operations@.len()
            &&& forall|k: int|
                0 <= k < outcomes@.len() ==> match #[trigger] applied@[k] {
                    None => outcomes@[k] is None,
                    Some(a) => is_replay(a, source_device_id@, source_sequence, payload_hash@) && (outcomes@[k] matches Some(
                        o,
                    ) && duplicate_outcome(o, operations@[k])),
                }
        },
        r is Err ==> ids_repeat(operations@) || exists|k: int|
            0 <= k < applied.len() && #[trigger] reused_at(applied@, k, source_device_id@, source_sequence, payload_hash@),
{
    let n = operations.len();
    let mut j: usize = 0;
    while j < n
        invariant
            n == operations.len(),
            j <= n,
            forall|a: int, b: int| 0 <= a < b < j ==> operations@[a].operation_id@ != operations@[b].operation_id@,
        decreases n - j,
    {
        let mut i: usize = 0;
        while i < j
            invariant
                n == operations.len(),
                i <= j < n,
                forall|a: int| 0 <= a < i ==> operations@[a].operation_id@ != operations@[j as int].operation_id@,
            decreases j - i,
        {
            if str_eq(operations[i].operation_id.as_str(), operations[j].operation_id.as_str()) {
                proof {
                    assert(same_id(operations@[i as int], operations@[j as int]));
                }
                return Err(SyncError::Integrity(owned("signed event contains duplicate operation_id")));
            }
            i = i + 1;
        }
        j = j + 1;
    }
    assert(!ids_repeat(operations@));
    let mut pending: Vec<usize> = Vec::new();
    let mut outcomes: Vec<Option<ApplyOutcome>> = Vec::new();
    let mut k: usize = 0;
    while k < n
        invariant
            n == operations.len(),
            applied.len() == n,
            !ids_repeat(operations@),
            k <= n,
            pending@ == new_positions(applied@.take(k as int)),
            outcomes@.len() == k,
            forall|x: int|
                0 <= x < k ==> match #[trigger] applied@[x] {
                    None => outcomes@[x] is None,
                    Some(a) => is_replay(a, source_device_id@, source_sequence, payload_hash@) && (outcomes@[x] matches Some(
                        o,
                    ) && duplicate_outcome(o, operations@[x])),
                },
        decreases n - k,
    {
        proof {
            assert(applied@.take(k + 1).drop_last() =~= applied@.take(k as int));
        }
        match replay_check(&applied[k], source_device_id, source_sequence, payload_hash) {
            Err(e) => {
                assert(reused_at(applied@, k as int, source_device_id@, source_sequence, payload_hash@));
                return Err(e);
            },
            Ok(false) => {
                pending.push(k);
                outcomes.push(None);
            },
            Ok(true) => {
                outcomes.push(
                    Some(
                        ApplyOutcome {
                            operation_id: operations[k].operation_id.clone(),
                            applied_fields: Vec::new(),
                            conflict_fields: Vec::new(),
                            duplicate: true,
                        },
                    ),
                );
            },
        }
        k = k + 1;
    }
    assert(applied@.take(n as int) =~= applied@);
    Ok((pending, outcomes))
}

/// The positions of new operations rise and stay within the package.
pub proof fn lemma_new_positions_rise(applied: Seq<Option<AppliedRecord>>)
    requires
        applied.len() <= usize::MAX,
    ensures
        forall|p: int| 0 <= p < new_positions(applied).len() ==> new_positions(applied)[p] < applied.len(),
        forall|p: int, q: int|
            0 <= p < q < new_positions(applied).len() ==> new_positions(applied)[p] < new_positions(applied)[q],
    decreases applied.len(),
{
    if applied.len() > 0 {
        let rest = new_positions(applied.drop_last());
        lemma_new_positions_rise(applied.drop_last());
        if applied.last() is None {
            let all = rest.push((applied.len() - 1) as usize);
            assert(new_positions(applied) == all);
            assert forall|p: int, q: int| 0 <= p < q < all.len() implies all[p] < all[q] by {
                if q == all.len() - 1 {
                    assert(all[p] == rest[p]);
                    assert(rest[p] < applied.drop_last().len());
                }
            }
        } else {
            assert(new_positions(applied) == rest);
        }
    }
}


/// The judge a case upsert assigns when it carries `judge_id`: `Some(None)`
/// clears it; a malformed value is refused with the message given.
pub open spec fn spec_judge_change(op: SyncOperation) -> Result<Option<Option<Seq<char>>>, Seq<char>> {
    if op.entity_type@ == "case"@ && op.action == OperationAction::Upsert && member(
        op.changed_fields@,
        "judge_id"@,
    ) is Some {
        match spec_dependency_value(op, "judge_id"@) {
            Ok(v) => Ok(Some(v)),
            Err(m) => Err(m),
        }
    } else {
        Ok(None)
    }
}

pub open spec fn opt_opt_view(o: Option<Option<String>>) -> Option<Option<Seq<char>>> {
    match o {
        Some(v) => Some(opt_view(v)),
        None => None,
    }
}

/// The judge assignment an operation of a package carries, if any.
pub fn judge_change(operation: &SyncOperation) -> (r: Result<Option<Option<String>>, SyncError>)
    ensures
        match spec_judge_change(*operation) {
            Ok(v) => r matches Ok(x) && opt_opt_view(x) == v,
            Err(m) => r matches Err(e) && protocol_error(e, m),
        },
{
    if str_eq(operation.entity_type.as_str(), "case") && operation.action == OperationAction::Upsert
        && get_member(&operation.changed_fields, "judge_id").is_some() {
        match dependency_value(operation, "judge_id") {
            Ok(v) => Ok(Some(v)),
            Err(e) => Err(e),
        }
    } else {
        Ok(None)
    }
}

/// The case's judge as the package sees it while it is applied: whether
/// the case exists, and its judge.
#[derive(Debug)]
pub struct VirtualJudgeState {
    pub entity_exists: bool,
    pub judge_id: Option<String>,
}

/// The hash of the judge field of a case that exists: of the JSON string
/// of its judge, or of `null`.
pub open spec fn judge_hash(state: VirtualJudgeState) -> Option<Seq<char>> {
    if state.entity_exists {
        Some(spec_hex(sha256_digest(json_text_or_null_bytes(opt_view(state.judge_id)))))
    } else {
        None
    }
}

/// A judge assignment conflicts when the case changed locally since the
/// operation's base and the judge is not the one the operation saw.
pub open spec fn spec_judge_conflict(op: SyncOperation, local_revision: i64, state: VirtualJudgeState) -> bool {
    local_revision > op.base_revision && lookup_hash(op.base_field_hashes@, "judge_id"@) != judge_hash(state)
}

pub fn judge_conflict(operation: &SyncOperation, local_revision: i64, state: &VirtualJudgeState) -> (r: bool)
    ensures
        r == spec_judge_conflict(*operation, local_revision, *state),
{
    if local_revision <= operation.base_revision {
        return false;
    }
    let base = lookup_hash_of(&operation.base_field_hashes, "judge_id");
    let current = if state.entity_exists {
        let bytes = text_or_null_json_bytes(&state.judge_id);
        Some(sha256_hex(bytes.as_slice()))
    } else {
        None
    };
    assert(opt_view(current) == judge_hash(*state));
    match (&base, &current) {
        (Some(a), Some(b)) => !str_eq(a.as_str(), b.as_str()),
        (None, None) => false,
        _ => true,
    }
}

/// The members of `m`, in order, other than `key`.
pub open spec fn drop_member(m: Seq<(String, JsonValue)>, key: Seq<char>) -> Seq<(String, JsonValue)>
    decreases m.len(),
{
    if m.len() == 0 {
        Seq::empty()
    } else {
        let rest = drop_member(m.drop_last(), key);
        if m.last().0@ == key {
            rest
        } else {
            rest.push(m.last())
        }
    }
}

/// The hashes of `m`, in order, other than that of `key`.
pub open spec fn drop_hash(m: Seq<(String, String)>, key: Seq<char>) -> Seq<(String, String)>
    decreases m.len(),
{
    if m.len() == 0 {
        Seq::empty()
    } else {
        let rest = drop_hash(m.drop_last(), key);
        if m.last().0@ == key {
            rest
        } else {
            rest.push(m.last())
        }
    }
}

/// The operation without one field: neither its value nor its base hash.
pub fn without_field(operation: SyncOperation, field: &str) -> (r: SyncOperation)
    ensures
        r.changed_fields@ == drop_member(operation.changed_fields@, field@),
        r.base_field_hashes@ == drop_hash(operation.base_field_hashes@, field@),
        r.operation_id == operation.operation_id,
        r.entity_type == operation.entity_type,
        r.entity_id == operation.entity_id,
        r.case_id == operation.case_id,
        r.action == operation.action,
        r.base_revision == operation.base_revision,
        r.atomic_group == operation.atomic_group,
        r.author_device_id == operation.author_device_id,
        r.logical_time == operation.logical_time,
        r.capture_sequence == operation.capture_sequence,
        r.schema_version == operation.schema_version,
{
    let SyncOperation {
        operation_id,
        entity_type,
        entity_id,
        case_id,
        action,
        base_revision,
        changed_fields,
        base_field_hashes,
        atomic_group,
        author_device_id,
        logical_time,
        capture_sequence,
        schema_version,
    } = operation;
    let ghost orig = changed_fields@;
    let mut src = changed_fields;
    let mut kept: Vec<(String, JsonValue)> = Vec::new();
    let ghost mut i: int = 0;
    while src.len() > 0
        invariant
            0 <= i <= orig.len(),
            src@ == orig.skip(i),
            kept@ == drop_member(orig.take(i), field@),
        decreases src.len(),
    {
        let e = src.remove(0);
        proof {
            assert(e == orig[i]);
            assert(orig.take(i + 1).drop_last() =~= orig.take(i));
            assert(src@ =~= orig.skip(i + 1));
            i = i + 1;
        }
        if !str_eq(e.0.as_str(), field) {
            kept.push(e);
        }
    }
    assert(orig.take(i) =~= orig) by {
        assert(orig.skip(i).len() == 0);
    }
    let ghost orig_h = base_field_hashes@;
    let mut src_h = base_field_hashes;
    let mut kept_h: Vec<(String, String)> = Vec::new();
    let ghost mut j: int = 0;
    while src_h.len() > 0
        invariant
            0 <= j <= orig_h.len(),
            src_h@ == orig_h.skip(j),
            kept_h@ == drop_hash(orig_h.take(j), field@),
        decreases src_h.len(),
    {
        let e = src_h.remove(0);
        proof {
            assert(e == orig_h[j]);
            assert(orig_h.take(j + 1).drop_last() =~= orig_h.take(j));
            assert(src_h@ =~= orig_h.skip(j + 1));
            j = j + 1;
        }
        if !str_eq(e.0.as_str(), field) {
            kept_h.push(e);
        }
    }
    assert(orig_h.take(j) =~= orig_h) by {
        assert(orig_h.skip(j).len() == 0);
    }
    SyncOperation {
        operation_id,
        entity_type,
        entity_id,
        case_id,
        action,
        base_revision,
        changed_fields: kept,
        base_field_hashes: kept_h,
        atomic_group,
        author_device_id,
        logical_time,
        capture_sequence,
        schema_version,
    }
}

pub open spec fn lists_tombstone(fields: Seq<String>) -> bool {
    exists|i: int| 0 <= i < fields.len() && (#[trigger] fields[i])@ == "_tombstone"@
}

/// The judge state once an operation on the case was applied, before its
/// judge assignment: a tombstone that was applied removes the case and its
/// judge, an upsert makes the case exist.
pub open spec fn state_after_apply(state: VirtualJudgeState, action: OperationAction, applied: Seq<String>) -> VirtualJudgeState {
    if action == OperationAction::Tombstone {
        if lists_tombstone(applied) {
            VirtualJudgeState { entity_exists: false, judge_id: None }
        } else {
            state
        }
    } else {
        VirtualJudgeState { entity_exists: true, judge_id: state.judge_id }
    }
}

/// Carries the effect of one applied case operation into the package's
/// judge state, and settles its judge assignment: a conflicting one is
/// reported as the conflict field `judge_id` and leaves the judge; another
/// sets the judge and is reported as applied.
pub fn settle_judge(
    state: &mut VirtualJudgeState,
    outcome: &mut ApplyOutcome,
    action: OperationAction,
    change: Option<Option<String>>,
    conflict: bool,
)
    ensures
        ({
            let s1 = state_after_apply(*old(state), action, old(outcome).applied_fields@);
            match change {
                None => *final(state) == s1 && *final(outcome) == *old(outcome),
                Some(j) => if conflict {
                    &&& *final(state) == s1
                    &&& final(outcome).applied_fields == old(outcome).applied_fields
                    &&& strings(final(outcome).conflict_fields@) == strings(old(outcome).conflict_fields@).push(
                        "judge_id"@,
                    )
                    &&& final(outcome).operation_id == old(outcome).operation_id
                    &&& final(outcome).duplicate == old(outcome).duplicate
                } else {
                    &&& final(state).entity_exists == s1.entity_exists
                    &&& final(state).judge_id == j
                    &&& final(outcome).conflict_fields == old(outcome).conflict_fields
                    &&& strings(final(outcome).applied_fields@) == strings(old(outcome).applied_fields@).push(
                        "judge_id"@,
                    )
                    &&& final(outcome).operation_id == old(outcome).operation_id
                    &&& final(outcome).duplicate == old(outcome).duplicate
                },
            }
        }),
{
    if action == OperationAction::Tombstone {
        let mut found = false;
        let mut i: usize = 0;
        while i < outcome.applied_fields.len()
            invariant
                i <= outcome.applied_fields.len(),
                found == exists|k: int| 0 <= k < i && (#[trigger] outcome.applied_fields@[k])@ == "_tombstone"@,
            decreases outcome.applied_fields.len() - i,
        {
            if str_eq(outcome.applied_fields[i].as_str(), "_tombstone") {
                found = true;
            }
            i = i + 1;
        }
        if found {
            state.entity_exists = false;
            state.judge_id = None;
        }
    } else {
        state.entity_exists = true;
    }
    match change {
        None => {},
        Some(intended) => {
            if conflict {
                outcome.conflict_fields.push(owned("judge_id"));
                assert(strings(outcome.conflict_fields@) =~= strings(old(outcome).conflict_fields@).push("judge_id"@));
            } else {
                state.judge_id = intended;
                outcome.applied_fields.push(owned("judge_id"));
                assert(strings(outcome.applied_fields@) =~= strings(old(outcome).applied_fields@).push("judge_id"@));
            }
        },
    }
}


/// The atomic group a field of an entity type belongs to.
pub open spec fn field_group(entity_type: Seq<char>, field: Seq<char>) -> Option<Seq<char>> {
    match spec_policy(entity_type) {
        Some(p) => group_with_field(p.atomic_groups, field, 0),
        None => None,
    }
}

/// The group of the first field in `names` that belongs to one.
pub open spec fn first_group(entity_type: Seq<char>, names: Seq<Seq<char>>) -> Option<Seq<char>>
    decreases names.len(),
{
    if names.len() == 0 {
        None
    } else {
        match field_group(entity_type, names[0]) {
            Some(g) => Some(g),
            None => first_group(entity_type, names.subrange(1, names.len() as int)),
        }
    }
}

/// The prior hash of each of `names`, in order, where there is one.
pub open spec fn hashes_for(names: Seq<Seq<char>>, prior: Seq<(String, String)>) -> Seq<(Seq<char>, Seq<char>)>
    decreases names.len(),
{
    if names.len() == 0 {
        Seq::empty()
    } else {
        let rest = hashes_for(names.drop_last(), prior);
        match lookup_hash(prior, names.last()) {
            Some(h) => rest.push((names.last(), h)),
            None => rest,
        }
    }
}

pub open spec fn pair_views(v: Seq<(String, String)>) -> Seq<(Seq<char>, Seq<char>)> {
    v.map_values(|x: (String, String)| (x.0@, x.1@))
}

/// The fields carry every member of the atomic group.
pub open spec fn group_complete(entity_type: Seq<char>, group: Seq<char>, fields: Seq<(String, JsonValue)>) -> bool {
    &&& group_members(entity_type, group) is Some
    &&& forall|i: int|
        0 <= i < group_members(entity_type, group)->Some_0.len() ==> has_key(
            fields,
            #[trigger] group_members(entity_type, group)->Some_0[i],
        )
}

/// The fields of an entity type's atomic group.
pub open spec fn group_members(entity_type: Seq<char>, group: Seq<char>) -> Option<Seq<Seq<char>>> {
    match spec_policy(entity_type) {
        Some(p) => group_named(p.atomic_groups, group, 0),
        None => None,
    }
}

/// `names[k]` is the first changed field name that the fields lack.
pub open spec fn first_missing(fields: Seq<(String, JsonValue)>, names: Seq<String>, k: int) -> bool {
    &&& 0 <= k < names.len()
    &&& !has_key(fields, names[k]@)
    &&& forall|j: int| 0 <= j < k ==> has_key(fields, (#[trigger] names[j])@)
}

proof fn lemma_named_group_found(groups: Seq<(Seq<char>, Seq<Seq<char>>)>, g: Seq<char>, j: int, k: int)
    requires
        0 <= j <= k < groups.len(),
        groups[k].0 == g,
    ensures
        group_named(groups, g, j) is Some,
    decreases k - j,
{
    if groups[j].0 != g {
        lemma_named_group_found(groups, g, j + 1, k);
    }
}

pub(crate) proof fn lemma_group_with_field_is_named(groups: Seq<(Seq<char>, Seq<Seq<char>>)>, f: Seq<char>, i: int)
    requires
        0 <= i,
        group_with_field(groups, f, i) is Some,
    ensures
        group_named(groups, group_with_field(groups, f, i)->Some_0, 0) is Some,
    decreases groups.len() - i,
{
    if i < groups.len() && !seq_has(groups[i].1, f) {
        lemma_group_with_field_is_named(groups, f, i + 1);
    } else if i < groups.len() {
        lemma_named_group_found(groups, groups[i].0, 0, i);
    }
}

/// The distinct names, in string order.
pub open spec fn sorted_names(names: Seq<String>) -> Seq<Seq<char>> {
    choose|s: Seq<Seq<char>>| strictly_sorted(s) && s.to_set() == strings(names).to_set()
}

proof fn lemma_sorted_names(names: Seq<String>, sorted: Seq<String>)
    requires
        strictly_sorted(strings(sorted)),
        strings(sorted).to_set() == strings(names).to_set(),
    ensures
        strings(sorted) == sorted_names(names),
{
    let w = strings(sorted);
    assert(strictly_sorted(w) && w.to_set() == strings(names).to_set());
    let s = sorted_names(names);
    lemma_sorted_set_determines(w, s);
}

/// The group of the first of `names` that belongs to one.
fn first_group_of(entity_type: &str, names: &Vec<String>) -> (r: Option<&'static str>)
    ensures
        match r {
            Some(g) => first_group(entity_type@, strings(names@)) == Some(g@) && spec_policy(entity_type@) is Some
                && group_named(spec_policy(entity_type@)->Some_0.atomic_groups, g@, 0) is Some,
            None => first_group(entity_type@, strings(names@)) is None,
        },
{
    let mut i: usize = 0;
    assert(strings(names@).subrange(0, names.len() as int) =~= strings(names@));
    while i < names.len()
        invariant
            i <= names.len(),
            first_group(entity_type@, strings(names@)) == first_group(
                entity_type@,
                strings(names@).subrange(i as int, names.len() as int),
            ),
        decreases names.len() - i,
    {
        let ghost rest = strings(names@).subrange(i as int, names.len() as int);
        assert(rest.subrange(1, rest.len() as int) =~= strings(names@).subrange(i + 1, names.len() as int));
        let g = atomic_group_for_field(entity_type, names[i].as_str());
        if let Some(name) = g {
            proof {
                let p = spec_policy(entity_type@)->Some_0;
                lemma_group_with_field_is_named(p.atomic_groups, names@[i as int]@, 0);
            }
            return Some(name);
        }
        i = i + 1;
    }
    None
}

/// What a captured change records: its changed field names in name order,
/// each once; the prior hash of each; and the atomic group of the first
/// field that has one.
#[derive(Debug)]
pub struct EnqueuePlan {
    pub changed_fields: Vec<String>,
    pub base_field_hashes: Vec<(String, String)>,
    pub atomic_group: Option<String>,
}

/// Decides what a local change of an entity records for the outbox, given
/// its current fields, the names that changed and the field hashes of its
/// last synced revision. Fields that may not sync are refused, as is a name
/// the fields lack, an upsert with no changed field, and a change to an
/// atomic group that does not carry the whole group.
pub fn plan_enqueue(
    entity_type: &str,
    action: OperationAction,
    fields: &Vec<(String, JsonValue)>,
    changed_field_names: &Vec<String>,
    prior_hashes: &Vec<(String, String)>,
) -> (r: Result<EnqueuePlan, SyncError>)
    ensures
        !fields_pass(entity_type@, fields@) ==> (r matches Err(e) && fields_refusal(entity_type@, fields@, e)),
        fields_pass(entity_type@, fields@) ==> {
            if exists|k: int| #[trigger] first_missing(fields@, changed_field_names@, k) {
                exists|k: int|
                    #[trigger] first_missing(fields@, changed_field_names@, k) && (r matches Err(e) && protocol_error(
                        e,
                        "变更字段不存在: "@ + changed_field_names@[k]@,
                    ))
            } else if changed_field_names@.len() == 0 && action == OperationAction::Upsert {
                r matches Err(e) && protocol_error(e, "变更字段不能为空"@)
            } else {
                &&& (r matches Ok(plan) ==> ({
                    &&& strictly_sorted(strings(plan.changed_fields@))
                    &&& strings(plan.changed_fields@).to_set() == strings(changed_field_names@).to_set()
                    &&& pair_views(plan.base_field_hashes@) == hashes_for(strings(plan.changed_fields@), prior_hashes@)
                    &&& opt_view(plan.atomic_group) == first_group(entity_type@, strings(plan.changed_fields@))
                    &&& plan.atomic_group matches Some(g) ==> group_complete(entity_type@, g@, fields@)
                }))
                &&& (r matches Err(e) ==> exists|g: Seq<char>|
                    #[trigger] first_group(entity_type@, sorted_names(changed_field_names@)) == Some(g)
                        && !group_complete(entity_type@, g, fields@) && protocol_error(
                        e,
                        "原子字段组 "@ + g + " 必须携带完整当前值"@,
                    ))
            }
        },
{
    match check_fields(entity_type, fields) {
        Ok(()) => {},
        Err(e) => return Err(e),
    }
    let mut changed: Vec<String> = Vec::new();
    let mut k: usize = 0;
    while k < changed_field_names.len()
        invariant
            fields_pass(entity_type@, fields@),
            k <= changed_field_names.len(),
            forall|j: int| 0 <= j < k ==> has_key(fields@, (#[trigger] changed_field_names@[j])@),
            strictly_sorted(strings(changed@)),
            strings(changed@).to_set() == strings(changed_field_names@.take(k as int)).to_set(),
        decreases changed_field_names.len() - k,
    {
        let name = &changed_field_names[k];
        if !has_key_exec(fields, name.as_str()) {
            let mut m = owned("变更字段不存在: ");
            push_str(&mut m, name.as_str());
            assert(first_missing(fields@, changed_field_names@, k as int));
            return Err(SyncError::Protocol(m));
        }
        insert_sorted_unique(&mut changed, name.clone());
        proof {
            assert(strings(changed_field_names@.take(k + 1)) =~= strings(changed_field_names@.take(k as int)).push(
                name@,
            ));
            strings(changed_field_names@.take(k as int)).lemma_push_to_set_commute(name@);
        }
        k = k + 1;
    }
    assert(changed_field_names@.take(k as int) =~= changed_field_names@);
    assert(!exists|k: int| #[trigger] first_missing(fields@, changed_field_names@, k));
    if changed_field_names.len() == 0 && action == OperationAction::Upsert {
        return Err(SyncError::Protocol(owned("变更字段不能为空")));
    }
    proof {
        lemma_sorted_names(changed_field_names@, changed@);
    }
    let mut hashes: Vec<(String, String)> = Vec::new();
    let mut i: usize = 0;
    while i < changed.len()
        invariant
            i <= changed.len(),
            pair_views(hashes@) == hashes_for(strings(changed@).take(i as int), prior_hashes@),
        decreases changed.len() - i,
    {
        proof {
            assert(strings(changed@).take(i + 1).drop_last() =~= strings(changed@).take(i as int));
        }
        let ghost before = hashes@;
        match lookup_hash_of(prior_hashes, changed[i].as_str()) {
            Some(h) => {
                hashes.push((changed[i].clone(), h));
                assert(pair_views(hashes@) =~= pair_views(before).push((changed@[i as int]@, h@)));
            },
            None => {},
        }
        i = i + 1;
    }
    assert(strings(changed@).take(changed.len() as int) =~= strings(changed@));
    let group = first_group_of(entity_type, &changed);
    match group {
        None => Ok(EnqueuePlan { changed_fields: changed, base_field_hashes: hashes, atomic_group: None }),
        Some(g) => {
            let required = match atomic_group_fields(entity_type, g) {
                Ok(f) => f,
                Err(e) => {
                    proof {
                        assert(false);
                    }
                    return Err(e);
                },
            };
            let ghost req = strs(required@);
            assert(group_members(entity_type@, g@) == Some(req));
            let mut j: usize = 0;
            while j < required.len()
                invariant
                    fields_pass(entity_type@, fields@),
                    req == strs(required@),
                    spec_policy(entity_type@) is Some,
                    group_members(entity_type@, g@) == Some(req),
                    first_group(entity_type@, sorted_names(changed_field_names@)) == Some(g@),
                    !exists|k: int| #[trigger] first_missing(fields@, changed_field_names@, k),
                    !(changed_field_names@.len() == 0 && action == OperationAction::Upsert),
                    j <= required.len(),
                    forall|x: int| 0 <= x < j ==> has_key(fields@, #[trigger] strs(required@)[x]),
                decreases required.len() - j,
            {
                if !has_key_exec(fields, required[j]) {
                    let mut m = owned("原子字段组 ");
                    push_str(&mut m, g);
                    push_str(&mut m, " 必须携带完整当前值");
                    proof {
                        assert(!has_key(fields@, req[j as int]));
                        assert(!has_key(fields@, group_members(entity_type@, g@)->Some_0[j as int]));
                        assert(!group_complete(entity_type@, g@, fields@));
                        assert(first_group(entity_type@, sorted_names(changed_field_names@)) == Some(g@));
                    }
                    return Err(SyncError::Protocol(m));
                }
                j = j + 1;
            }
            Ok(EnqueuePlan { changed_fields: changed, base_field_hashes: hashes, atomic_group: Some(owned(g)) })
        },
    }
}


/// A pending conflict of one operation, as stored.
#[derive(Debug)]
pub struct ConflictRow {
    pub id: String,
    pub group_id: String,
    pub entity_type: String,
    pub entity_id: String,
    pub field_key: String,
    pub remote_value_json: Option<String>,
}

/// What resolving the conflicts of one operation writes: nothing; the
/// remote candidates, field and JSON text in row order, to be parsed in
/// that order, and, when a row lacks its candidate, that row's field, which
/// is refused after them; or the user's values.
#[derive(Debug)]
pub enum ResolutionPlan {
    KeepLocal,
    KeepRemote { candidates: Vec<(String, String)>, missing: Option<String> },
    Manual(Vec<(String, JsonValue)>),
}

/// All rows are about the entity of the first.
pub open spec fn rows_consistent(rows: Seq<ConflictRow>) -> bool {
    forall|i: int|
        0 <= i < rows.len() ==> (#[trigger] rows[i]).group_id@ == rows[0].group_id@ && rows[i].entity_type@
            == rows[0].entity_type@ && rows[i].entity_id@ == rows[0].entity_id@
}

/// The remote candidates of the rows, in order, up to the first row that
/// lacks one, and that row's field; the whole-entity row is skipped.
pub open spec fn remote_candidates(rows: Seq<ConflictRow>) -> (Seq<(Seq<char>, Seq<char>)>, Option<Seq<char>>)
    decreases rows.len(),
{
    if rows.len() == 0 {
        (Seq::empty(), None)
    } else if rows[0].field_key@ == "_tombstone"@ {
        remote_candidates(rows.subrange(1, rows.len() as int))
    } else {
        match rows[0].remote_value_json {
            None => (Seq::empty(), Some(rows[0].field_key@)),
            Some(raw) => {
                let rest = remote_candidates(rows.subrange(1, rows.len() as int));
                (seq![(rows[0].field_key@, raw@)] + rest.0, rest.1)
            },
        }
    }
}

/// The fields the user must give values for: every conflicting field but
/// the whole-entity one.
pub open spec fn expected_fields(rows: Seq<ConflictRow>) -> Set<Seq<char>> {
    Set::new(|f: Seq<char>| f != "_tombstone"@ && exists|i: int| 0 <= i < rows.len() && (#[trigger] rows[i]).field_key@ == f)
}

pub open spec fn member_names(m: Seq<(String, JsonValue)>) -> Set<Seq<char>> {
    Set::new(|f: Seq<char>| has_key(m, f))
}

/// The status a resolved conflict row is given.
pub open spec fn spec_resolution_status(resolution: ConflictResolution) -> Seq<char> {
    match resolution {
        ConflictResolution::KeepLocal => "resolved_local"@,
        ConflictResolution::KeepRemote => "resolved_remote"@,
        ConflictResolution::Manual => "resolved_manual"@,
    }
}

pub fn resolution_status(resolution: ConflictResolution) -> (r: &'static str)
    ensures
        r@ == spec_resolution_status(resolution),
{
    match resolution {
        ConflictResolution::KeepLocal => "resolved_local",
        ConflictResolution::KeepRemote => "resolved_remote",
        ConflictResolution::Manual => "resolved_manual",
    }
}

/// Decides how the pending conflicts of an operation are resolved: there
/// must be some, all about one entity of a synced type; keeping the local
/// values writes nothing; keeping the remote ones writes each field's
/// remote candidate; a manual resolution must give values for exactly the
/// conflicting fields, and only fields that may sync.
pub fn plan_resolution(
    operation_id: &str,
    rows: &Vec<ConflictRow>,
    resolution: ConflictResolution,
    manual_fields: Option<Vec<(String, JsonValue)>>,
) -> (r: Result<ResolutionPlan, SyncError>)
    ensures
        rows@.len() == 0 ==> (r matches Err(SyncError::NotFound(m)) && m@ == "没有待处理冲突: "@ + operation_id@),
        rows@.len() > 0 && !rows_consistent(rows@) ==> (r matches Err(SyncError::Integrity(m)) && m@
            == "同一操作的冲突实体不一致"@),
        rows@.len() > 0 && rows_consistent(rows@) ==> match spec_policy(rows@[0].entity_type@) {
            None => r matches Err(SyncError::EntityNotAllowed(s)) && s@ == rows@[0].entity_type@,
            Some(_) => match resolution {
                ConflictResolution::KeepLocal => r matches Ok(ResolutionPlan::KeepLocal),
                ConflictResolution::KeepRemote => r matches Ok(ResolutionPlan::KeepRemote { candidates, missing })
                    && pair_views(candidates@) == remote_candidates(rows@).0 && opt_view(missing)
                    == remote_candidates(rows@).1,
                ConflictResolution::Manual => match manual_fields {
                    None => r matches Err(e) && protocol_error(e, "手工解决必须提供字段值"@),
                    Some(m) => if member_names(m@) != expected_fields(rows@) {
                        r matches Err(e) && protocol_error(e, "手工解决字段必须与本操作的待处理冲突完全一致"@)
                    } else if fields_pass(rows@[0].entity_type@, m@) {
                        r matches Ok(ResolutionPlan::Manual(v)) && v@ == m@
                    } else {
                        r matches Err(e) && fields_refusal(rows@[0].entity_type@, m@, e)
                    },
                },
            },
        },
{
    if rows.len() == 0 {
        let mut m = owned("没有待处理冲突: ");
        push_str(&mut m, operation_id);
        return Err(SyncError::NotFound(m));
    }
    let first = &rows[0];
    let mut i: usize = 0;
    while i < rows.len()
        invariant
            i <= rows.len(),
            rows@.len() > 0,
            *first == rows@[0],
            forall|j: int|
                0 <= j < i ==> (#[trigger] rows@[j]).group_id@ == rows@[0].group_id@ && rows@[j].entity_type@
                    == rows@[0].entity_type@ && rows@[j].entity_id@ == rows@[0].entity_id@,
        decreases rows.len() - i,
    {
        let row = &rows[i];
        if !str_eq(row.group_id.as_str(), first.group_id.as_str()) || !str_eq(
            row.entity_type.as_str(),
            first.entity_type.as_str(),
        ) || !str_eq(row.entity_id.as_str(), first.entity_id.as_str()) {
            return Err(SyncError::Integrity(owned("同一操作的冲突实体不一致")));
        }
        i = i + 1;
    }
    match policy(first.entity_type.as_str()) {
        Ok(_) => {},
        Err(e) => return Err(e),
    }
    match resolution {
        ConflictResolution::KeepLocal => Ok(ResolutionPlan::KeepLocal),
        ConflictResolution::KeepRemote => {
            let (candidates, missing) = collect_candidates(rows);
            Ok(ResolutionPlan::KeepRemote { candidates, missing })
        },
        ConflictResolution::Manual => {
            let manual = match manual_fields {
                None => return Err(SyncError::Protocol(owned("手工解决必须提供字段值"))),
                Some(m) => m,
            };
            if !same_field_set(rows, &manual) {
                return Err(SyncError::Protocol(owned("手工解决字段必须与本操作的待处理冲突完全一致")));
            }
            match check_fields(first.entity_type.as_str(), &manual) {
                Ok(()) => Ok(ResolutionPlan::Manual(manual)),
                Err(e) => Err(e),
            }
        },
    }
}

fn collect_candidates(rows: &Vec<ConflictRow>) -> (r: (Vec<(String, String)>, Option<String>))
    ensures
        pair_views(r.0@) == remote_candidates(rows@).0,
        opt_view(r.1) == remote_candidates(rows@).1,
{
    let mut out: Vec<(String, String)> = Vec::new();
    let mut i: usize = 0;
    assert(rows@.subrange(0, rows@.len() as int) =~= rows@);
    while i < rows.len()
        invariant
            i <= rows.len(),
            remote_candidates(rows@).1 == remote_candidates(rows@.subrange(i as int, rows@.len() as int)).1,
            remote_candidates(rows@).0 == pair_views(out@) + remote_candidates(
                rows@.subrange(i as int, rows@.len() as int),
            ).0,
        decreases rows.len() - i,
    {
        let ghost rest = rows@.subrange(i as int, rows@.len() as int);
        assert(rest.subrange(1, rest.len() as int) =~= rows@.subrange(i + 1, rows@.len() as int));
        let row = &rows[i];
        if !str_eq(row.field_key.as_str(), "_tombstone") {
            match &row.remote_value_json {
                None => {
                    assert(remote_candidates(rest).0 =~= Seq::<(Seq<char>, Seq<char>)>::empty());
                    assert(remote_candidates(rows@).0 =~= pair_views(out@));
                    return (out, Some(row.field_key.clone()));
                },
                Some(raw) => {
                    let ghost before = out@;
                    out.push((row.field_key.clone(), raw.clone()));
                    assert(pair_views(out@) =~= pair_views(before) + seq![(row.field_key@, raw@)]);
                    assert(remote_candidates(rows@).0 =~= pair_views(out@) + remote_candidates(
                        rows@.subrange(i + 1, rows@.len() as int),
                    ).0);
                },
            }
        }
        i = i + 1;
    }
    assert(remote_candidates(rows@.subrange(rows.len() as int, rows@.len() as int)).0 =~= Seq::<(Seq<char>, Seq<char>)>::empty());
    assert(remote_candidates(rows@).0 =~= pair_views(out@));
    (out, None)
}

/// The manual values name exactly the conflicting fields.
fn same_field_set(rows: &Vec<ConflictRow>, manual: &Vec<(String, JsonValue)>) -> (r: bool)
    ensures
        r == (member_names(manual@) == expected_fields(rows@)),
{
    // every expected field has a value
    let mut i: usize = 0;
    while i < rows.len()
        invariant
            i <= rows.len(),
            forall|j: int|
                0 <= j < i ==> (#[trigger] rows@[j]).field_key@ == "_tombstone"@ || has_key(manual@, rows@[j].field_key@),
        decreases rows.len() - i,
    {
        if !str_eq(rows[i].field_key.as_str(), "_tombstone") && !has_key_exec(manual, rows[i].field_key.as_str()) {
            proof {
                let f = rows@[i as int].field_key@;
                assert(expected_fields(rows@).contains(f));
                assert(!member_names(manual@).contains(f));
            }
            return false;
        }
        i = i + 1;
    }
    // every value is for an expected field
    let mut k: usize = 0;
    while k < manual.len()
        invariant
            k <= manual.len(),
            forall|j: int|
                0 <= j < rows@.len() ==> (#[trigger] rows@[j]).field_key@ == "_tombstone"@ || has_key(manual@, rows@[j].field_key@),
            forall|x: int| 0 <= x < k ==> (#[trigger] expected_fields(rows@).contains(manual@[x].0@)),
        decreases manual.len() - k,
    {
        let name = manual[k].0.as_str();
        let mut found = false;
        if !str_eq(name, "_tombstone") {
            let mut j: usize = 0;
            while j < rows.len()
                invariant
                    j <= rows.len(),
                    k < manual.len(),
                    name@ == manual@[k as int].0@,
                    name@ != "_tombstone"@,
                    found ==> expected_fields(rows@).contains(name@),
                    !found ==> forall|y: int| 0 <= y < j ==> (#[trigger] rows@[y]).field_key@ != name@,
                decreases rows.len() - j,
            {
                if str_eq(rows[j].field_key.as_str(), name) {
                    assert(rows@[j as int].field_key@ == name@);
                    found = true;
                }
                j = j + 1;
            }
        }
        if !found {
            proof {
                assert(!expected_fields(rows@).contains(name@));
                assert(member_names(manual@).contains(name@)) by {
                    assert(manual@[k as int].0@ == name@);
                }
            }
            return false;
        }
        k = k + 1;
    }
    proof {
        assert forall|f: Seq<char>| member_names(manual@).contains(f) <==> expected_fields(rows@).contains(f) by {
            if member_names(manual@).contains(f) {
                let x = choose|x: int| 0 <= x < manual@.len() && (#[trigger] manual@[x]).0@ == f;
                assert(expected_fields(rows@).contains(manual@[x].0@));
            }
            if expected_fields(rows@).contains(f) {
                let y = choose|y: int| 0 <= y < rows@.len() && (#[trigger] rows@[y]).field_key@ == f;
                assert(rows@[y].field_key@ == "_tombstone"@ || has_key(manual@, rows@[y].field_key@));
            }
        }
        assert(member_names(manual@) =~= expected_fields(rows@));
    }
    true
}


/// An operation based on the receiver's current revision, or a newer one,
/// never conflicts.
pub proof fn lemma_current_base_never_conflicts(
    op: SyncOperation,
    clean: Seq<(String, JsonValue)>,
    local_revision: i64,
    locally_tombstoned: bool,
    now: Seq<(String, String)>,
)
    requires
        local_revision <= op.base_revision,
    ensures
        spec_incoming_conflicts(op, clean, local_revision, locally_tombstoned, now) == Some(Seq::<Seq<char>>::empty()),
{
}

/// A conflicting field is never written: the fields written are exactly
/// the operation's fields outside the conflicts.
pub proof fn lemma_conflicts_are_not_written(clean: Seq<(String, JsonValue)>, conflicts: Seq<Seq<char>>)
    ensures
        forall|i: int|
            0 <= i < without(clean, conflicts).len() ==> !conflicts.contains(
                (#[trigger] without(clean, conflicts)[i]).0@,
            ),
        forall|i: int|
            0 <= i < clean.len() && !conflicts.contains((#[trigger] clean[i]).0@) ==> without(clean, conflicts).contains(
                clean[i],
            ),
    decreases clean.len(),
{
    if clean.len() > 0 {
        let rest = without(clean.drop_last(), conflicts);
        lemma_conflicts_are_not_written(clean.drop_last(), conflicts);
        if !conflicts.contains(clean.last().0@) {
            let all = rest.push(clean.last());
            assert(without(clean, conflicts) == all);
            assert forall|i: int| 0 <= i < clean.len() && !conflicts.contains((#[trigger] clean[i]).0@) implies all.contains(
                clean[i],
            ) by {
                if i < clean.len() - 1 {
                    assert(clean.drop_last()[i] == clean[i]);
                    let k = choose|k: int| 0 <= k < rest.len() && rest[k] == clean[i];
                    assert(all[k] == clean[i]);
                } else {
                    assert(all[rest.len() as int] == clean[i]);
                }
            }
        } else {
            assert forall|i: int| 0 <= i < clean.len() && !conflicts.contains((#[trigger] clean[i]).0@) implies rest.contains(
                clean[i],
            ) by {
                assert(i < clean.len() - 1);
                assert(clean.drop_last()[i] == clean[i]);
            }
        }
    }
}

} // verus!
