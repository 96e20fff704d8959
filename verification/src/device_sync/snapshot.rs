//! Encrypted logical snapshots of the synced entities: which kinds may be
//! taken, which old ones are removed, and what restoring one would change.
use vstd::prelude::*;

use super::crypto::{EnvelopeHeader, PROTOCOL_VERSION};
use super::registry::{policy, spec_policy};
use super::SyncError;
use crate::text::{
    compare_str, lemma_lex_lt_total, lemma_lex_lt_transitive, lex_lt, owned, str_eq,
};
use vstd::set_lib::{lemma_int_range, lemma_len_subset, set_int_range};

verus! {

#[derive(Debug, Clone)]
pub struct SnapshotResult {
    pub snapshot_id: String,
    pub encrypted_path: String,
    pub manifest_hash: String,
    pub entity_counts: Vec<(String, usize)>,
}

#[derive(Debug, Clone)]
pub struct RestorePreview {
    pub snapshot_id: String,
    pub entity_counts: Vec<(String, usize)>,
    pub new_entities: Vec<(String, usize)>,
    pub existing_entities: Vec<(String, usize)>,
    pub plaintext_sha256: String,
    pub formal_database_unchanged: bool,
}

#[derive(Debug, Clone)]
pub struct IsolatedRestorePreview {
    pub isolated_database_path: String,
    pub preview: RestorePreview,
}

pub open spec fn valid_snapshot_kind(kind: Seq<char>) -> bool {
    kind == "daily"@ || kind == "monthly"@ || kind == "manual"@
}

/// A snapshot is daily, monthly or manual.
pub fn check_snapshot_kind(kind: &str) -> (r: Result<(), SyncError>)
    ensures
        valid_snapshot_kind(kind@) ==> r is Ok,
        !valid_snapshot_kind(kind@) ==> (r matches Err(SyncError::Protocol(m)) && m@ == "快照类型必须是 daily/monthly/manual"@),
{
    if str_eq(kind, "daily") || str_eq(kind, "monthly") || str_eq(kind, "manual") {
        Ok(())
    } else {
        Err(SyncError::Protocol(owned("快照类型必须是 daily/monthly/manual")))
    }
}

/// One stored snapshot of a group.
#[derive(Debug, Clone)]
pub struct SnapshotRecord {
    pub id: String,
    pub encrypted_file_name: String,
    pub snapshot_kind: String,
    pub created_at: String,
}

/// How many snapshots of a kind are kept: 30 daily, 12 monthly, every
/// manual one.
pub open spec fn retention_keep(kind: Seq<char>) -> Option<nat> {
    if kind == "daily"@ {
        Some(30)
    } else if kind == "monthly"@ {
        Some(12)
    } else {
        None
    }
}

/// `a` is newer than `b`: created later, or at the same time with a greater
/// id.
pub open spec fn newer(a: SnapshotRecord, b: SnapshotRecord) -> bool {
    lex_lt(b.created_at@, a.created_at@) || (a.created_at@ == b.created_at@ && lex_lt(b.id@, a.id@))
}

/// How many of the first `k` rows are of `r`'s kind and newer than `r`.
pub open spec fn count_newer(rows: Seq<SnapshotRecord>, r: SnapshotRecord, k: int) -> nat
    decreases k,
{
    if k <= 0 {
        0
    } else {
        count_newer(rows, r, k - 1) + if rows[k - 1].snapshot_kind@ == r.snapshot_kind@ && newer(rows[k - 1], r) {
            1nat
        } else {
            0nat
        }
    }
}

/// A snapshot is removed when its kind keeps `n` and at least `n` newer
/// snapshots of its kind exist.
pub open spec fn is_stale(rows: Seq<SnapshotRecord>, i: int) -> bool {
    match retention_keep(rows[i].snapshot_kind@) {
        Some(n) => count_newer(rows, rows[i], rows.len() as int) >= n,
        None => false,
    }
}

fn newer_exec(a: &SnapshotRecord, b: &SnapshotRecord) -> (r: bool)
    ensures
        r == newer(*a, *b),
{
    let c = compare_str(b.created_at.as_str(), a.created_at.as_str());
    if c < 0 {
        return true;
    }
    if c > 0 {
        return false;
    }
    compare_str(b.id.as_str(), a.id.as_str()) < 0
}

proof fn lemma_newer_transitive(a: SnapshotRecord, b: SnapshotRecord, c: SnapshotRecord)
    requires
        newer(a, b),
        newer(b, c),
    ensures
        newer(a, c),
{
    if lex_lt(b.created_at@, a.created_at@) && lex_lt(c.created_at@, b.created_at@) {
        lemma_lex_lt_transitive(c.created_at@, b.created_at@, a.created_at@);
    } else if a.created_at@ == b.created_at@ && b.created_at@ == c.created_at@ {
        lemma_lex_lt_transitive(c.id@, b.id@, a.id@);
    }
}

proof fn lemma_newer_total(a: SnapshotRecord, b: SnapshotRecord)
    requires
        a.id@ != b.id@,
    ensures
        newer(a, b) || newer(b, a),
{
    if a.created_at@ != b.created_at@ {
        lemma_lex_lt_total(a.created_at@, b.created_at@);
    } else {
        lemma_lex_lt_total(a.id@, b.id@);
    }
}

/// The rows of `r`'s kind among the first `k` that are newer than `r`.
pub open spec fn newer_rows(rows: Seq<SnapshotRecord>, r: SnapshotRecord, k: int) -> Set<int> {
    Set::new(|j: int| 0 <= j < k && rows[j].snapshot_kind@ == r.snapshot_kind@ && newer(rows[j], r))
}

proof fn lemma_count_newer_rows(rows: Seq<SnapshotRecord>, r: SnapshotRecord, k: int)
    requires
        0 <= k <= rows.len(),
    ensures
        newer_rows(rows, r, k).finite(),
        count_newer(rows, r, k) == newer_rows(rows, r, k).len(),
    decreases k,
{
    if k == 0 {
        assert(newer_rows(rows, r, 0) =~= Set::empty());
    } else {
        lemma_count_newer_rows(rows, r, k - 1);
        if rows[k - 1].snapshot_kind@ == r.snapshot_kind@ && newer(rows[k - 1], r) {
            assert(newer_rows(rows, r, k) =~= newer_rows(rows, r, k - 1).insert(k - 1));
        } else {
            assert(newer_rows(rows, r, k) =~= newer_rows(rows, r, k - 1));
        }
    }
}

/// Snapshot ids are unique.
pub open spec fn ids_unique(rows: Seq<SnapshotRecord>) -> bool {
    forall|i: int, j: int| 0 <= i < j < rows.len() ==> (#[trigger] rows[i]).id@ != (#[trigger] rows[j]).id@
}

/// Every other row of `s` is newer than row `o`.
pub open spec fn oldest_in(rows: Seq<SnapshotRecord>, s: Set<int>, o: int) -> bool {
    &&& s.contains(o)
    &&& forall|k: int| s.contains(k) && k != o ==> #[trigger] newer(rows[k], rows[o])
}

proof fn lemma_oldest_exists(rows: Seq<SnapshotRecord>, s: Set<int>)
    requires
        s.finite(),
        s.len() > 0,
        forall|i: int| s.contains(i) ==> 0 <= i < rows.len(),
        ids_unique(rows),
    ensures
        exists|o: int| oldest_in(rows, s, o),
    decreases s.len(),
{
    let x = s.choose();
    let t = s.remove(x);
    if t.len() == 0 {
        assert forall|k: int| s.contains(k) && k != x implies #[trigger] newer(rows[k], rows[x]) by {
            assert(t.contains(k));
        }
        assert(oldest_in(rows, s, x));
    } else {
        lemma_oldest_exists(rows, t);
        let o = choose|o: int| oldest_in(rows, t, o);
        if newer(rows[o], rows[x]) {
            assert forall|k: int| s.contains(k) && k != x implies #[trigger] newer(rows[k], rows[x]) by {
                if k != o {
                    assert(t.contains(k));
                    lemma_newer_transitive(rows[k], rows[o], rows[x]);
                }
            }
            assert(oldest_in(rows, s, x));
        } else {
            assert(t.contains(o));
            if o < x {
                assert(rows[o].id@ != rows[x].id@);
            } else {
                assert(rows[x].id@ != rows[o].id@);
            }
            lemma_newer_total(rows[x], rows[o]);
            assert forall|k: int| s.contains(k) && k != o implies #[trigger] newer(rows[k], rows[o]) by {
                if k != x {
                    assert(t.contains(k));
                }
            }
            assert(oldest_in(rows, s, o));
        }
    }
}

/// The rows of a kind that retention keeps.
pub open spec fn kept_of_kind(rows: Seq<SnapshotRecord>, kind: Seq<char>) -> Set<int> {
    Set::new(|i: int| 0 <= i < rows.len() && rows[i].snapshot_kind@ == kind && !is_stale(rows, i))
}

/// Retention keeps at most 30 daily and 12 monthly snapshots: of a kind
/// that keeps `n`, at most `n` snapshots survive.
pub proof fn lemma_retention_keeps_at_most(rows: Seq<SnapshotRecord>, kind: Seq<char>, n: nat)
    requires
        retention_keep(kind) == Some(n),
        ids_unique(rows),
    ensures
        kept_of_kind(rows, kind).finite(),
        kept_of_kind(rows, kind).len() <= n,
{
    let kept = kept_of_kind(rows, kind);
    lemma_int_range(0, rows.len() as int);
    assert(kept.subset_of(set_int_range(0, rows.len() as int)));
    lemma_len_subset(kept, set_int_range(0, rows.len() as int));
    if kept.len() > 0 {
        lemma_oldest_exists(rows, kept);
        let o = choose|o: int| oldest_in(rows, kept, o);
        lemma_count_newer_rows(rows, rows[o], rows.len() as int);
        let others = kept.remove(o);
        assert(others.subset_of(newer_rows(rows, rows[o], rows.len() as int)));
        lemma_len_subset(others, newer_rows(rows, rows[o], rows.len() as int));
        assert(!is_stale(rows, o));
    }
}

/// The positions of the snapshots that retention removes, in order.
pub fn stale_snapshots(rows: &Vec<SnapshotRecord>) -> (r: Vec<usize>)
    ensures
        forall|k: int| 0 <= k < r@.len() ==> (#[trigger] r@[k]) < rows@.len() && is_stale(rows@, r@[k] as int),
        forall|k: int, m: int| 0 <= k < m < r@.len() ==> r@[k] < r@[m],
        forall|i: int| 0 <= i < rows@.len() && is_stale(rows@, i) ==> r@.contains(i as usize),
{
    let mut out: Vec<usize> = Vec::new();
    let mut i: usize = 0;
    while i < rows.len()
        invariant
            i <= rows@.len(),
            forall|k: int| 0 <= k < out@.len() ==> (#[trigger] out@[k]) < i && is_stale(rows@, out@[k] as int),
            forall|k: int, m: int| 0 <= k < m < out@.len() ==> out@[k] < out@[m],
            forall|j: int| 0 <= j < i && is_stale(rows@, j) ==> out@.contains(j as usize),
        decreases rows@.len() - i,
    {
        let row = &rows[i];
        let keep: usize = if str_eq(row.snapshot_kind.as_str(), "daily") {
            30
        } else if str_eq(row.snapshot_kind.as_str(), "monthly") {
            12
        } else {
            0
        };
        if keep > 0 {
            let mut count: usize = 0;
            let mut j: usize = 0;
            while j < rows.len()
                invariant
                    i < rows@.len(),
                    *row == rows@[i as int],
                    j <= rows@.len(),
                    count == count_newer(rows@, rows@[i as int], j as int),
                    count <= j,
                decreases rows@.len() - j,
            {
                if str_eq(rows[j].snapshot_kind.as_str(), row.snapshot_kind.as_str()) && newer_exec(&rows[j], row) {
                    count = count + 1;
                }
                j = j + 1;
            }
            proof {
                reveal_strlit("daily");
                reveal_strlit("monthly");
                assert(retention_keep(row.snapshot_kind@) == Some(keep as nat));
            }
            if count >= keep {
                let ghost before = out@;
                out.push(i);
                proof {
                    assert forall|j: int| 0 <= j < i + 1 && is_stale(rows@, j) implies out@.contains(j as usize) by {
                        if j < i {
                            let k = choose|k: int| 0 <= k < before.len() && before[k] == j as usize;
                            assert(out@[k] == j as usize);
                        } else {
                            assert(out@[before.len() as int] == i);
                        }
                    }
                }
            } else {
                assert(!is_stale(rows@, i as int));
                proof {
                    assert forall|j: int| 0 <= j < i + 1 && is_stale(rows@, j) implies out@.contains(j as usize) by {
                        if j == i {
                            assert(false);
                        }
                    }
                }
            }
        } else {
            proof {
                reveal_strlit("daily");
                reveal_strlit("monthly");
                if row.snapshot_kind@ == "daily"@ || row.snapshot_kind@ == "monthly"@ {
                    assert(false);
                }
                assert(!is_stale(rows@, i as int));
                assert forall|j: int| 0 <= j < i + 1 && is_stale(rows@, j) implies out@.contains(j as usize) by {
                    if j == i {
                        assert(false);
                    }
                }
            }
        }
        i = i + 1;
    }
    out
}

/// The file chosen for a restore must be a snapshot of this group.
pub fn check_snapshot_envelope(header: &EnvelopeHeader, group_id: &str) -> (r: Result<(), SyncError>)
    ensures
        header.group_id@ == group_id@ && header.payload_kind@ == "snapshot"@ ==> r is Ok,
        !(header.group_id@ == group_id@ && header.payload_kind@ == "snapshot"@) ==> (r matches Err(
            SyncError::Integrity(m),
        ) && m@ == "所选文件不是本同步组的加密快照"@),
{
    if !str_eq(header.group_id.as_str(), group_id) || !str_eq(header.payload_kind.as_str(), "snapshot") {
        return Err(SyncError::Integrity(owned("所选文件不是本同步组的加密快照")));
    }
    Ok(())
}

/// The snapshot must be signed by a trusted member, whose key is given.
pub fn require_trusted_signer(public_key: Option<String>) -> (r: Result<String, SyncError>)
    ensures
        match public_key {
            Some(k) => r == Ok::<String, SyncError>(k),
            None => r matches Err(SyncError::Integrity(m)) && m@ == "快照签名设备不受信"@,
        },
{
    match public_key {
        Some(k) => Ok(k),
        None => Err(SyncError::Integrity(owned("快照签名设备不受信"))),
    }
}

/// The decrypted body must be of this group and protocol.
pub fn check_snapshot_body(body_group_id: &str, body_protocol_version: u32, group_id: &str) -> (r: Result<(), SyncError>)
    ensures
        body_group_id@ == group_id@ && body_protocol_version == PROTOCOL_VERSION ==> r is Ok,
        !(body_group_id@ == group_id@ && body_protocol_version == PROTOCOL_VERSION) ==> (r matches Err(
            SyncError::Integrity(m),
        ) && m@ == "快照正文组或协议不匹配"@),
{
    if !str_eq(body_group_id, group_id) || body_protocol_version != PROTOCOL_VERSION {
        return Err(SyncError::Integrity(owned("快照正文组或协议不匹配")));
    }
    Ok(())
}

/// How many of the values are `Some(b)`.
pub open spec fn count_flag(v: Seq<Option<bool>>, b: bool) -> nat
    decreases v.len(),
{
    if v.len() == 0 {
        0
    } else {
        count_flag(v.drop_last(), b) + if v.last() == Some(b) {
            1nat
        } else {
            0nat
        }
    }
}

/// An entity type of a snapshot can be previewed: it is synced and each of
/// its values has an id.
pub open spec fn type_previewable(e: (String, Vec<Option<bool>>)) -> bool {
    spec_policy(e.0@) is Some && forall|j: int| 0 <= j < e.1@.len() ==> (#[trigger] e.1@[j]) is Some
}

/// The error for an entity type that cannot be previewed.
pub open spec fn preview_error(e: (String, Vec<Option<bool>>), err: SyncError) -> bool {
    if spec_policy(e.0@) is None {
        err matches SyncError::EntityNotAllowed(s) && s@ == e.0@
    } else {
        err matches SyncError::Serialization(m) && m@ == "快照实体缺少 id"@
    }
}

/// How many values are new and how many exist, or `None` when a value
/// has no id.
fn count_values(values: &Vec<Option<bool>>) -> (r: Option<(usize, usize)>)
    ensures
        match r {
            Some((n, e)) => (forall|y: int| 0 <= y < values@.len() ==> (#[trigger] values@[y]) is Some) && n == count_flag(
                values@,
                false,
            ) && e == count_flag(values@, true),
            None => exists|y: int| 0 <= y < values@.len() && (#[trigger] values@[y]) is None,
        },
{
    let mut n_new: usize = 0;
    let mut n_existing: usize = 0;
    let mut j: usize = 0;
    while j < values.len()
        invariant
            j <= values@.len(),
            n_new == count_flag(values@.take(j as int), false),
            n_existing == count_flag(values@.take(j as int), true),
            n_new + n_existing == j,
            forall|y: int| 0 <= y < j ==> (#[trigger] values@[y]) is Some,
        decreases values@.len() - j,
    {
        proof {
            assert(values@.take(j + 1).drop_last() =~= values@.take(j as int));
        }
        match values[j] {
            None => {
                return None;
            },
            Some(true) => {
                n_existing = n_existing + 1;
            },
            Some(false) => {
                n_new = n_new + 1;
            },
        }
        j = j + 1;
    }
    assert(values@.take(values.len() as int) =~= values@);
    Some((n_new, n_existing))
}

/// The counts a restore preview shows, per entity type of the snapshot:
/// each value is `None` when it has no id, else whether the local database
/// already has it. An entity type that is not synced, or a value without
/// id, is refused, the first in order deciding.
pub fn restore_counts(entities: &Vec<(String, Vec<Option<bool>>)>) -> (r: Result<
    (Vec<(String, usize)>, Vec<(String, usize)>, Vec<(String, usize)>),
    SyncError,
>)
    ensures
        match r {
            Ok((counts, new_entities, existing)) => {
                &&& forall|k: int| 0 <= k < entities@.len() ==> type_previewable(#[trigger] entities@[k])
                &&& counts@.len() == entities@.len()
                &&& new_entities@.len() == entities@.len()
                &&& existing@.len() == entities@.len()
                &&& forall|k: int|
                    0 <= k < entities@.len() ==> (#[trigger] counts@[k]).0@ == entities@[k].0@ && counts@[k].1
                        == entities@[k].1@.len() && new_entities@[k].0@ == entities@[k].0@ && new_entities@[k].1
                        == count_flag(entities@[k].1@, false) && existing@[k].0@ == entities@[k].0@
                        && existing@[k].1 == count_flag(entities@[k].1@, true)
            },
            Err(err) => exists|k: int|
                0 <= k < entities@.len() && !type_previewable(#[trigger] entities@[k]) && (forall|j: int|
                    0 <= j < k ==> type_previewable(#[trigger] entities@[j])) && preview_error(entities@[k], err),
        },
{
    let mut counts: Vec<(String, usize)> = Vec::new();
    let mut new_entities: Vec<(String, usize)> = Vec::new();
    let mut existing: Vec<(String, usize)> = Vec::new();
    let mut k: usize = 0;
    while k < entities.len()
        invariant
            k <= entities@.len(),
            counts@.len() == k,
            new_entities@.len() == k,
            existing@.len() == k,
            forall|x: int| 0 <= x < k ==> type_previewable(#[trigger] entities@[x]),
            forall|x: int|
                0 <= x < k ==> (#[trigger] counts@[x]).0@ == entities@[x].0@ && counts@[x].1 == entities@[x].1@.len()
                    && new_entities@[x].0@ == entities@[x].0@ && new_entities@[x].1 == count_flag(
                    entities@[x].1@,
                    false,
                ) && existing@[x].0@ == entities@[x].0@ && existing@[x].1 == count_flag(entities@[x].1@, true),
        decreases entities@.len() - k,
    {
        let entity_type = &entities[k].0;
        let values = &entities[k].1;
        match policy(entity_type.as_str()) {
            Ok(_) => {},
            Err(e) => {
                assert(preview_error(entities@[k as int], e));
                return Err(e);
            },
        }
        let (n_new, n_existing) = match count_values(values) {
            Some(c) => c,
            None => {
                let e = SyncError::Serialization(owned("快照实体缺少 id"));
                assert(!type_previewable(entities@[k as int]));
                assert(preview_error(entities@[k as int], e));
                return Err(e);
            },
        };
        counts.push((entity_type.clone(), values.len()));
        new_entities.push((entity_type.clone(), n_new));
        existing.push((entity_type.clone(), n_existing));
        k = k + 1;
    }
    Ok((counts, new_entities, existing))
}

} // verus!
