//! Capturing local changes: what one dirty entity becomes in the outbox,
//! given its last synced revision and the hashes of its current fields.
use vstd::prelude::*;

use super::operations::{
    field_group, group_members, hashes_for, lemma_group_with_field_is_named, lookup_hash, lookup_hash_of, opt_view,
    pair_views, strings, OperationAction,
};
use super::registry::{atomic_group_fields, atomic_group_for_field, policy, spec_policy, strs};
use super::SyncError;
use crate::text::{insert_sorted_unique, lemma_sorted_set_determines, owned, push_str, str_eq, strictly_sorted};

verus! {

/// An entity's last synced revision: its number, the hashes of its fields
/// and whether it was deleted.
#[derive(Debug)]
pub struct PriorRevision {
    pub revision: i64,
    pub field_hashes: Vec<(String, String)>,
    pub tombstoned: bool,
}

/// What a dirty entity becomes: nothing, when none of its fields changed
/// since its last revision; else an operation carrying the named current
/// fields (in name order), the prior hashes of those, its atomic group, and
/// the entity's next revision with its field hashes.
#[derive(Debug)]
pub enum CapturePlan {
    Unchanged,
    Capture {
        action: OperationAction,
        base_revision: i64,
        fields: Vec<String>,
        base_field_hashes: Vec<(String, String)>,
        atomic_group: Option<String>,
        revision: i64,
        field_hashes: Vec<(String, String)>,
        tombstoned: bool,
    },
}

/// What serde_json reads from a text as a map of strings to strings, in key
/// order, when it reads one.
pub uninterp spec fn json_string_map(text: Seq<char>) -> Option<Seq<(Seq<char>, Seq<char>)>>;

/// `serde_json::from_str::<BTreeMap<String, String>>` and its entries;
/// claims that the outcome is serde_json's function of the text.
#[verifier::external_body]
fn parse_string_map(text: &str) -> (r: Option<Vec<(String, String)>>)
    ensures
        match r {
            Some(v) => json_string_map(text@) == Some(pair_views(v@)),
            None => json_string_map(text@) is None,
        },
{
    serde_json::from_str::<std::collections::BTreeMap<String, String>>(text).ok().map(|m| m.into_iter().collect())
}

/// A stored revision as the capture reads it: field hashes that do not
/// parse count as none, and any non-zero flag as deleted.
pub fn prior_revision(revision: i64, field_hashes_json: &str, tombstoned: i64) -> (r: PriorRevision)
    ensures
        r.revision == revision,
        r.tombstoned == (tombstoned != 0),
        match json_string_map(field_hashes_json@) {
            Some(m) => pair_views(r.field_hashes@) == m,
            None => r.field_hashes@.len() == 0,
        },
{
    let field_hashes = match parse_string_map(field_hashes_json) {
        Some(v) => v,
        None => Vec::new(),
    };
    PriorRevision { revision, field_hashes, tombstoned: tombstoned != 0 }
}

pub open spec fn base_of(prior: Option<PriorRevision>) -> i64 {
    match prior {
        Some(p) => p.revision,
        None => 0,
    }
}

pub open spec fn prior_hashes_of(prior: Option<PriorRevision>) -> Seq<(String, String)> {
    match prior {
        Some(p) => p.field_hashes@,
        None => Seq::empty(),
    }
}

pub open spec fn prior_tombstoned_of(prior: Option<PriorRevision>) -> bool {
    match prior {
        Some(p) => p.tombstoned,
        None => false,
    }
}

pub open spec fn key_views(v: Seq<(String, String)>) -> Seq<Seq<char>> {
    v.map_values(|e: (String, String)| e.0@)
}

/// The current fields whose hash differs from the prior one, in order.
pub open spec fn changed_fields(prior: Seq<(String, String)>, current: Seq<(String, String)>) -> Seq<Seq<char>>
    decreases current.len(),
{
    if current.len() == 0 {
        Seq::empty()
    } else {
        let rest = changed_fields(prior, current.drop_last());
        if lookup_hash(prior, current.last().0@) != Some(current.last().1@) {
            rest.push(current.last().0@)
        } else {
            rest
        }
    }
}

/// The distinct names, in string order.
pub open spec fn sorted_of(names: Seq<Seq<char>>) -> Seq<Seq<char>> {
    choose|s: Seq<Seq<char>>| strictly_sorted(s) && s.to_set() == names.to_set()
}

/// The members of a group that the current fields have.
pub open spec fn member_set(members: Seq<Seq<char>>, current: Seq<(String, String)>) -> Set<Seq<char>> {
    Set::new(|m: Seq<char>| members.contains(m) && lookup_hash(current, m) is Some)
}

/// The fields a changed field brings along: the members of its atomic group
/// that the entity has, or else itself.
pub open spec fn carried_by(entity_type: Seq<char>, field: Seq<char>, current: Seq<(String, String)>) -> Set<Seq<char>> {
    match field_group(entity_type, field) {
        Some(g) => match group_members(entity_type, g) {
            Some(ms) => member_set(ms, current),
            None => Set::empty(),
        },
        None => set![field],
    }
}

/// The fields that changed names bring along.
pub open spec fn carried(entity_type: Seq<char>, names: Seq<Seq<char>>, current: Seq<(String, String)>) -> Set<Seq<char>>
    decreases names.len(),
{
    if names.len() == 0 {
        Set::empty()
    } else {
        carried(entity_type, names.drop_last(), current).union(carried_by(entity_type, names.last(), current))
    }
}

/// The group of the last of `names` that belongs to one.
pub open spec fn last_group(entity_type: Seq<char>, names: Seq<Seq<char>>) -> Option<Seq<char>>
    decreases names.len(),
{
    if names.len() == 0 {
        None
    } else {
        match field_group(entity_type, names.last()) {
            Some(g) => Some(g),
            None => last_group(entity_type, names.drop_last()),
        }
    }
}

/// The capture of an upsert whose entity exists, for the fields that changed.
pub open spec fn upsert_captured(
    entity_type: Seq<char>,
    prior: Option<PriorRevision>,
    current: Seq<(String, String)>,
    plan: CapturePlan,
) -> bool {
    let changed = sorted_of(changed_fields(prior_hashes_of(prior), current));
    plan matches CapturePlan::Capture {
        action,
        base_revision,
        fields,
        base_field_hashes,
        atomic_group,
        revision,
        field_hashes,
        tombstoned,
    } && {
        &&& action == OperationAction::Upsert
        &&& base_revision == base_of(prior)
        &&& strictly_sorted(strings(fields@))
        &&& strings(fields@).to_set() == (if base_of(prior) == 0 {
            key_views(current).to_set()
        } else {
            carried(entity_type, changed, current)
        })
        &&& pair_views(base_field_hashes@) == hashes_for(strings(fields@), prior_hashes_of(prior))
        &&& opt_view(atomic_group) == last_group(entity_type, changed)
        &&& revision == base_of(prior) + 1
        &&& pair_views(field_hashes@) == pair_views(current)
        &&& !tombstoned
    }
}

/// The capture of a deletion.
pub open spec fn tombstone_captured(prior: Option<PriorRevision>, plan: CapturePlan) -> bool {
    plan matches CapturePlan::Capture {
        action,
        base_revision,
        fields,
        base_field_hashes,
        atomic_group,
        revision,
        field_hashes,
        tombstoned,
    } && action == OperationAction::Tombstone && base_revision == base_of(prior) && fields@.len() == 0
        && base_field_hashes@.len() == 0 && atomic_group is None && revision == base_of(prior) + 1 && pair_views(
        field_hashes@,
    ) == pair_views(prior_hashes_of(prior)) && tombstoned
}

proof fn lemma_sorted_of(names: Seq<Seq<char>>, sorted: Seq<Seq<char>>)
    requires
        strictly_sorted(sorted),
        sorted.to_set() == names.to_set(),
    ensures
        sorted == sorted_of(names),
{
    assert(strictly_sorted(sorted) && sorted.to_set() == names.to_set());
    let s = sorted_of(names);
    lemma_sorted_set_determines(sorted, s);
}

/// The prior hash of each name, in order, where there is one.
fn hashes_of(names: &Vec<String>, prior: &Vec<(String, String)>) -> (r: Vec<(String, String)>)
    ensures
        pair_views(r@) == hashes_for(strings(names@), prior@),
{
    let mut hashes: Vec<(String, String)> = Vec::new();
    let mut i: usize = 0;
    while i < names.len()
        invariant
            i <= names.len(),
            pair_views(hashes@) == hashes_for(strings(names@).take(i as int), prior@),
        decreases names.len() - i,
    {
        proof {
            assert(strings(names@).take(i + 1).drop_last() =~= strings(names@).take(i as int));
        }
        let ghost before = hashes@;
        match lookup_hash_of(prior, names[i].as_str()) {
            Some(h) => {
                hashes.push((names[i].clone(), h));
                assert(pair_views(hashes@) =~= pair_views(before).push((names@[i as int]@, h@)));
            },
            None => {},
        }
        i = i + 1;
    }
    assert(strings(names@).take(names.len() as int) =~= strings(names@));
    hashes
}

/// The names of the current fields whose hash changed, in string order.
fn changed_names(prior: &Vec<(String, String)>, current: &Vec<(String, String)>) -> (r: Vec<String>)
    ensures
        strictly_sorted(strings(r@)),
        strings(r@).to_set() == changed_fields(prior@, current@).to_set(),
        strings(r@) == sorted_of(changed_fields(prior@, current@)),
{
    let mut changed: Vec<String> = Vec::new();
    let mut i: usize = 0;
    while i < current.len()
        invariant
            i <= current.len(),
            strictly_sorted(strings(changed@)),
            strings(changed@).to_set() == changed_fields(prior@, current@.take(i as int)).to_set(),
        decreases current.len() - i,
    {
        assert(current@.take(i + 1).drop_last() =~= current@.take(i as int));
        let differs = match lookup_hash_of(prior, current[i].0.as_str()) {
            Some(h) => !str_eq(h.as_str(), current[i].1.as_str()),
            None => true,
        };
        if differs {
            let name = current[i].0.clone();
            proof {
                changed_fields(prior@, current@.take(i as int)).lemma_push_to_set_commute(name@);
            }
            insert_sorted_unique(&mut changed, name);
        }
        i = i + 1;
    }
    assert(current@.take(current.len() as int) =~= current@);
    proof {
        lemma_sorted_of(changed_fields(prior@, current@), strings(changed@));
    }
    changed
}

/// All current field names, in string order.
fn all_names(current: &Vec<(String, String)>) -> (r: Vec<String>)
    ensures
        strictly_sorted(strings(r@)),
        strings(r@).to_set() == key_views(current@).to_set(),
{
    let mut names: Vec<String> = Vec::new();
    let mut i: usize = 0;
    while i < current.len()
        invariant
            i <= current.len(),
            strictly_sorted(strings(names@)),
            strings(names@).to_set() == key_views(current@.take(i as int)).to_set(),
        decreases current.len() - i,
    {
        let name = current[i].0.clone();
        proof {
            assert(key_views(current@.take(i + 1)) =~= key_views(current@.take(i as int)).push(name@));
            key_views(current@.take(i as int)).lemma_push_to_set_commute(name@);
        }
        insert_sorted_unique(&mut names, name);
        i = i + 1;
    }
    assert(current@.take(current.len() as int) =~= current@);
    names
}

/// The fields the changed names bring along, and the last atomic group among
/// them.
fn carried_fields(entity_type: &str, changed: &Vec<String>, current: &Vec<(String, String)>) -> (r: (
    Vec<String>,
    Option<&'static str>,
))
    ensures
        strictly_sorted(strings(r.0@)),
        strings(r.0@).to_set() == carried(entity_type@, strings(changed@), current@),
        match r.1 {
            Some(g) => last_group(entity_type@, strings(changed@)) == Some(g@),
            None => last_group(entity_type@, strings(changed@)) is None,
        },
{
    let mut fields: Vec<String> = Vec::new();
    let mut group: Option<&'static str> = None;
    let mut j: usize = 0;
    while j < changed.len()
        invariant
            j <= changed.len(),
            strictly_sorted(strings(fields@)),
            strings(fields@).to_set() == carried(entity_type@, strings(changed@).take(j as int), current@),
            match group {
                Some(g) => last_group(entity_type@, strings(changed@).take(j as int)) == Some(g@),
                None => last_group(entity_type@, strings(changed@).take(j as int)) is None,
            },
        decreases changed.len() - j,
    {
        let ghost names = strings(changed@).take(j + 1);
        assert(names.drop_last() =~= strings(changed@).take(j as int));
        assert(names.last() == changed@[j as int]@);
        let ghost before = carried(entity_type@, strings(changed@).take(j as int), current@);
        match atomic_group_for_field(entity_type, changed[j].as_str()) {
            Some(g) => {
                let ghost p = spec_policy(entity_type@)->Some_0;
                proof {
                    lemma_group_with_field_is_named(p.atomic_groups, changed@[j as int]@, 0);
                }
                let members = match atomic_group_fields(entity_type, g) {
                    Ok(m) => m,
                    Err(_) => {
                        proof {
                            assert(false);
                        }
                        return (fields, group);
                    },
                };
                let ghost ms = strs(members@);
                assert(group_members(entity_type@, g@) == Some(ms));
                let mut k: usize = 0;
                while k < members.len()
                    invariant
                        k <= members.len(),
                        ms == strs(members@),
                        strictly_sorted(strings(fields@)),
                        strings(fields@).to_set() == before.union(member_set(ms.take(k as int), current@)),
                    decreases members.len() - k,
                {
                    let ghost fk = strings(fields@).to_set();
                    assert(ms.take(k + 1).drop_last() =~= ms.take(k as int));
                    assert(ms.take(k + 1).last() == members@[k as int]@);
                    if lookup_hash_of(current, members[k]).is_some() {
                        insert_sorted_unique(&mut fields, owned(members[k]));
                        assert(member_set(ms.take(k + 1), current@) =~= member_set(ms.take(k as int), current@).insert(
                            members@[k as int]@,
                        ));
                    } else {
                        assert(member_set(ms.take(k + 1), current@) =~= member_set(ms.take(k as int), current@));
                    }
                    k = k + 1;
                }
                assert(ms.take(members.len() as int) =~= ms);
                group = Some(g);
            },
            None => {
                let name = changed[j].clone();
                insert_sorted_unique(&mut fields, name);
            },
        }
        assert(strings(fields@).to_set() =~= carried(entity_type@, names, current@));
        j = j + 1;
    }
    assert(strings(changed@).take(changed.len() as int) =~= strings(changed@));
    (fields, group)
}

/// Decides what one dirty entity becomes in the outbox. An unregistered type
/// and an unknown dirty action are refused; a deletion carries no fields; an
/// upsert needs the entity to exist and carries the fields whose hash changed
/// since the prior revision, widened to their atomic groups (all fields, for
/// an entity never synced), or nothing when no field changed and the entity
/// was not deleted. `current` holds the hashes of the entity's fields, when
/// the entity exists.
pub fn plan_capture(
    entity_type: &str,
    entity_id: &str,
    action: &str,
    prior: Option<PriorRevision>,
    current: Option<Vec<(String, String)>>,
) -> (r: Result<CapturePlan, SyncError>)
    requires
        base_of(prior) < i64::MAX,
    ensures
        spec_policy(entity_type@) is None ==> (r matches Err(SyncError::EntityNotAllowed(s)) && s@ == entity_type@),
        spec_policy(entity_type@) is Some && action@ != "upsert"@ && action@ != "tombstone"@ ==> (r matches Err(
            SyncError::Protocol(m),
        ) && m@ == "未知 dirty action: "@ + action@),
        spec_policy(entity_type@) is Some && action@ == "tombstone"@ ==> (r matches Ok(plan) && tombstone_captured(
            prior,
            plan,
        )),
        spec_policy(entity_type@) is Some && action@ == "upsert"@ ==> match current {
            None => r matches Err(SyncError::Integrity(m)) && m@ == "标记为 upsert 的实体不存在: "@ + entity_type@ + "/"@
                + entity_id@,
            Some(cur) => if changed_fields(prior_hashes_of(prior), cur@).len() == 0 && !prior_tombstoned_of(prior) {
                r matches Ok(CapturePlan::Unchanged)
            } else {
                r matches Ok(plan) && upsert_captured(entity_type@, prior, cur@, plan)
            },
        },
{
    match policy(entity_type) {
        Ok(_) => {},
        Err(e) => return Err(e),
    }
    proof {
        reveal_strlit("upsert");
        reveal_strlit("tombstone");
        assert("upsert"@.len() != "tombstone"@.len());
    }
    let is_upsert = str_eq(action, "upsert");
    if !is_upsert && !str_eq(action, "tombstone") {
        let mut m = owned("未知 dirty action: ");
        push_str(&mut m, action);
        return Err(SyncError::Protocol(m));
    }
    let ghost prior_view = prior;
    let (base, prior_hashes, prior_tombstoned) = match prior {
        Some(p) => (p.revision, p.field_hashes, p.tombstoned),
        None => (0i64, Vec::new(), false),
    };
    assert(prior_hashes@ == prior_hashes_of(prior_view));
    if !is_upsert {
        return Ok(
            CapturePlan::Capture {
                action: OperationAction::Tombstone,
                base_revision: base,
                fields: Vec::new(),
                base_field_hashes: Vec::new(),
                atomic_group: None,
                revision: base + 1,
                field_hashes: prior_hashes,
                tombstoned: true,
            },
        );
    }
    let cur = match current {
        Some(c) => c,
        None => {
            let mut m = owned("标记为 upsert 的实体不存在: ");
            push_str(&mut m, entity_type);
            push_str(&mut m, "/");
            push_str(&mut m, entity_id);
            return Err(SyncError::Integrity(m));
        },
    };
    let changed = changed_names(&prior_hashes, &cur);
    let ghost sorted = strings(changed@);
    proof {
        let c = changed_fields(prior_hashes@, cur@);
        if c.len() > 0 {
            assert(c.to_set().contains(c[0]));
            assert(sorted.to_set().contains(c[0]));
        }
        if sorted.len() > 0 {
            assert(sorted.to_set().contains(sorted[0]));
            assert(c.to_set().contains(sorted[0]));
        }
    }
    if changed.len() == 0 && !prior_tombstoned {
        return Ok(CapturePlan::Unchanged);
    }
    let (carried_names, group) = carried_fields(entity_type, &changed, &cur);
    let fields = if base == 0 {
        all_names(&cur)
    } else {
        carried_names
    };
    let base_field_hashes = hashes_of(&fields, &prior_hashes);
    let atomic_group = match group {
        Some(g) => Some(owned(g)),
        None => None,
    };
    Ok(
        CapturePlan::Capture {
            action: OperationAction::Upsert,
            base_revision: base,
            fields,
            base_field_hashes,
            atomic_group,
            revision: base + 1,
            field_hashes: cur,
            tombstoned: false,
        },
    )
}

} // verus!
