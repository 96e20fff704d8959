//! Classification of an existing database's applied migration history against
//! the migrations this build embeds. Reading the history, the catalog probes
//! behind each schema sentinel and the embedded migrator is the caller's work;
//! every decision on what was read stands here.
use vstd::prelude::*;

use super::migration_safety::{is_compat_error, spec_compatibility_error};
use super::migration_safety::compatibility_error;
use super::{
    DbError, DB_MIGRATION_APPLIED_VERSION_UNKNOWN, DB_MIGRATION_CHECKSUM_UNKNOWN,
    DB_MIGRATION_LINEAGE_INCOMPATIBLE, DB_MIGRATION_SCHEMA_SENTINEL_MISSING,
};
use crate::text::str_eq;

verus! {

pub const LEGACY_MIGRATION_36_VERSION: i64 = 36;

pub const LEGACY_MIGRATION_36_DESCRIPTION: &'static str = "feishu reminder runs";

pub const LEGACY_MIGRATION_36_SCHEMA_SENTINEL: &'static str =
    "M36.table.feishu_reminder_runs.exact_definition";

/// The checksum that the retired migration 36 recorded when it was applied.
pub open spec fn legacy_36_checksum() -> Seq<u8> {
    seq![
        0x84u8, 0xf8, 0x59, 0x10, 0x24, 0x47, 0xac, 0xb5, 0xdb, 0xee, 0x9e, 0x17, 0x9a, 0x0a, 0xe3, 0x49,
        0x3d, 0x7e, 0xd2, 0x48, 0x3b, 0x28, 0xa4, 0x47, 0xbd, 0xf0, 0xf4, 0xf9, 0x36, 0x0c, 0xc2, 0x39,
        0x9f, 0xc1, 0xf7, 0xaa, 0x08, 0xcb, 0xa2, 0xf0, 0xbe, 0x50, 0xf4, 0x44, 0xf4, 0x84, 0x14, 0x80,
    ]
}

fn legacy_36_checksum_bytes() -> (r: Vec<u8>)
    ensures
        r@ == legacy_36_checksum(),
{
    let r = vec![
        0x84u8, 0xf8, 0x59, 0x10, 0x24, 0x47, 0xac, 0xb5, 0xdb, 0xee, 0x9e, 0x17, 0x9a, 0x0a, 0xe3, 0x49,
        0x3d, 0x7e, 0xd2, 0x48, 0x3b, 0x28, 0xa4, 0x47, 0xbd, 0xf0, 0xf4, 0xf9, 0x36, 0x0c, 0xc2, 0x39,
        0x9f, 0xc1, 0xf7, 0xaa, 0x08, 0xcb, 0xa2, 0xf0, 0xbe, 0x50, 0xf4, 0x44, 0xf4, 0x84, 0x14, 0x80,
    ];
    assert(r@ =~= legacy_36_checksum());
    r
}

/// One row of `_sqlx_migrations`, as read in version order.
#[derive(Debug)]
pub struct HistoryRow {
    pub version: i64,
    pub description: String,
    pub success: i64,
    pub checksum: Vec<u8>,
}

/// One migration embedded in this build.
#[derive(Debug)]
pub struct EmbeddedMigration {
    pub version: i64,
    pub checksum: Vec<u8>,
}

/// The outcome of one catalog probe behind a schema sentinel.
#[derive(Debug)]
pub struct SentinelProbe {
    pub migration_version: i64,
    pub code: &'static str,
    pub present: bool,
}

/// A schema sentinel that an applied migration should have left and that the
/// catalog does not show.
#[derive(Debug)]
pub struct MissingSentinel {
    pub migration_version: i64,
    pub code: &'static str,
}

/// What the migrator may skip when it runs on this database.
#[derive(Debug)]
pub struct MigrationPreflight {
    pub allow_missing_legacy_migration_36: bool,
}

// ---------------------------------------------------------------------------
// The model
// ---------------------------------------------------------------------------

/// Whether some embedded migration has `version`.
pub open spec fn embeds(e: Seq<EmbeddedMigration>, version: i64) -> bool {
    exists|k: int| 0 <= k < e.len() && #[trigger] e[k].version == version
}

/// The embedded migration with `version` (its versions are distinct).
pub open spec fn embedded_index(e: Seq<EmbeddedMigration>, version: i64) -> int {
    choose|k: int| 0 <= k < e.len() && #[trigger] e[k].version == version
}

/// The embedded checksum for `version`, when there is one.
pub open spec fn embedded_checksum(e: Seq<EmbeddedMigration>, version: i64) -> Option<Seq<u8>> {
    if embeds(e, version) {
        Some(e[embedded_index(e, version)].checksum@)
    } else {
        None
    }
}

/// The embedded migrations come in strictly increasing version order.
pub open spec fn embedded_well_formed(e: Seq<EmbeddedMigration>) -> bool {
    forall|a: int, b: int| 0 <= a < b < e.len() ==> #[trigger] e[a].version < #[trigger] e[b].version
}

/// The retired migration 36, recorded under its own description.
pub open spec fn is_legacy_36_row(r: HistoryRow) -> bool {
    r.version == LEGACY_MIGRATION_36_VERSION && r.description@ == LEGACY_MIGRATION_36_DESCRIPTION@
}

/// A row that stops the preflight: a failed migration, or a version this build
/// does not embed (other than the retired migration 36).
pub open spec fn row_rejected(r: HistoryRow, e: Seq<EmbeddedMigration>) -> bool {
    r.success != 1 || (!embeds(e, r.version) && !is_legacy_36_row(r))
}

/// The error for a rejected row.
pub open spec fn row_error(r: HistoryRow, e: Seq<EmbeddedMigration>) -> super::CompatibilityErrorView {
    if r.success != 1 {
        spec_compatibility_error(
            DB_MIGRATION_LINEAGE_INCOMPATIBLE@,
            Some(r.version),
            "failed_history_row"@,
            Some(r.checksum@),
            embedded_checksum(e, r.version),
            Seq::empty(),
        )
    } else {
        spec_compatibility_error(
            DB_MIGRATION_APPLIED_VERSION_UNKNOWN@,
            Some(r.version),
            "applied_version_not_embedded"@,
            Some(r.checksum@),
            None,
            Seq::empty(),
        )
    }
}

/// Whether some history row has `version`.
pub open spec fn applied(h: Seq<HistoryRow>, version: i64) -> bool {
    exists|i: int| 0 <= i < h.len() && #[trigger] h[i].version == version
}

/// Embedded migration `k` lies at or below the highest applied version but was
/// never applied.
pub open spec fn is_gap(h: Seq<HistoryRow>, e: Seq<EmbeddedMigration>, k: int) -> bool {
    &&& 0 <= k < e.len()
    &&& !applied(h, e[k].version)
    &&& exists|i: int| 0 <= i < h.len() && e[k].version <= #[trigger] h[i].version
}

pub open spec fn gap_error(m: EmbeddedMigration) -> super::CompatibilityErrorView {
    spec_compatibility_error(
        DB_MIGRATION_LINEAGE_INCOMPATIBLE@,
        Some(m.version),
        "applied_history_gap"@,
        None,
        Some(m.checksum@),
        Seq::empty(),
    )
}

/// What the history check concludes: the first rejected row, else the first
/// gap in the embedded order, else acceptance, with migration 36 allowed to
/// stay missing from the embedded set when its legacy row is present.
pub open spec fn history_verdict(
    h: Seq<HistoryRow>,
    e: Seq<EmbeddedMigration>,
    r: Result<bool, DbError>,
) -> bool {
    if exists|i: int| 0 <= i < h.len() && #[trigger] row_rejected(h[i], e) {
        exists|i: int|
            0 <= i < h.len() && #[trigger] row_rejected(h[i], e) && (forall|j: int|
                0 <= j < i ==> !row_rejected(#[trigger] h[j], e)) && (r matches Err(err)
                && is_compat_error(err, row_error(h[i], e)))
    } else if exists|k: int| #[trigger] is_gap(h, e, k) {
        exists|k: int|
            #[trigger] is_gap(h, e, k) && (forall|j: int| 0 <= j < k ==> !#[trigger] is_gap(h, e, j))
                && (r matches Err(err) && is_compat_error(err, gap_error(e[k])))
    } else {
        r == Ok::<bool, DbError>(
            exists|i: int|
                0 <= i < h.len() && #[trigger] is_legacy_36_row(h[i]) && !embeds(e, h[i].version),
        )
    }
}

// ---------------------------------------------------------------------------
// History rows
// ---------------------------------------------------------------------------

fn find_embedded(embedded: &[EmbeddedMigration], version: i64) -> (r: Option<usize>)
    requires
        embedded_well_formed(embedded@),
    ensures
        r is None <==> !embeds(embedded@, version),
        r matches Some(k) ==> k == embedded_index(embedded@, version) && k < embedded.len(),
{
    let mut k: usize = 0;
    while k < embedded.len()
        invariant
            embedded_well_formed(embedded@),
            k <= embedded.len(),
            forall|j: int| 0 <= j < k ==> #[trigger] embedded@[j].version != version,
        decreases embedded.len() - k,
    {
        if embedded[k].version == version {
            proof {
                let c = embedded_index(embedded@, version);
                assert(embedded@[k as int].version == version);
                assert(embeds(embedded@, version));
                if c != k as int {
                    if c < k {
                    } else {
                        assert(embedded@[k as int].version < embedded@[c].version);
                    }
                }
            }
            return Some(k);
        }
        k = k + 1;
    }
    None
}

fn embedded_checksum_of(embedded: &[EmbeddedMigration], version: i64) -> (r: Option<&[u8]>)
    requires
        embedded_well_formed(embedded@),
    ensures
        match r {
            Some(c) => embedded_checksum(embedded@, version) == Some(c@),
            None => embedded_checksum(embedded@, version) is None,
        },
{
    match find_embedded(embedded, version) {
        Some(k) => Some(embedded[k].checksum.as_slice()),
        None => None,
    }
}

fn is_applied(history: &[HistoryRow], version: i64) -> (r: bool)
    ensures
        r == applied(history@, version),
{
    let mut i: usize = 0;
    while i < history.len()
        invariant
            i <= history.len(),
            forall|j: int| 0 <= j < i ==> #[trigger] history@[j].version != version,
        decreases history.len() - i,
    {
        if history[i].version == version {
            assert(history@[i as int].version == version);
            return true;
        }
        i = i + 1;
    }
    false
}

fn row_error_of(row: &HistoryRow, embedded: &[EmbeddedMigration]) -> (err: DbError)
    requires
        embedded_well_formed(embedded@),
        row_rejected(*row, embedded@),
    ensures
        is_compat_error(err, row_error(*row, embedded@)),
{
    let none: Vec<String> = Vec::new();
    assert(none@.map_values(|s: String| s@) =~= Seq::<Seq<char>>::empty());
    if row.success != 1 {
        compatibility_error(
            DB_MIGRATION_LINEAGE_INCOMPATIBLE,
            Some(row.version),
            "failed_history_row",
            Some(row.checksum.as_slice()),
            embedded_checksum_of(embedded, row.version),
            none,
        )
    } else {
        compatibility_error(
            DB_MIGRATION_APPLIED_VERSION_UNKNOWN,
            Some(row.version),
            "applied_version_not_embedded",
            Some(row.checksum.as_slice()),
            None,
            none,
        )
    }
}

fn classify_row(row: &HistoryRow, embedded: &[EmbeddedMigration]) -> (r: (bool, bool))
    requires
        embedded_well_formed(embedded@),
    ensures
        r.0 == row_rejected(*row, embedded@),
        r.1 == (is_legacy_36_row(*row) && !embeds(embedded@, row.version)),
{
    let known = find_embedded(embedded, row.version).is_some();
    let legacy = row.version == LEGACY_MIGRATION_36_VERSION && str_eq(
        row.description.as_str(),
        LEGACY_MIGRATION_36_DESCRIPTION,
    );
    (row.success != 1 || (!known && !legacy), legacy && !known)
}

/// The first embedded migration at or below `max_version` that the history
/// does not hold, where `max_version` is the highest applied version.
fn first_gap(history: &[HistoryRow], embedded: &[EmbeddedMigration], max_version: i64) -> (r: Option<usize>)
    requires
        exists|j: int| 0 <= j < history@.len() && #[trigger] history@[j].version == max_version,
        forall|j: int| #[trigger] is_gap(history@, embedded@, j) ==> embedded@[j].version <= max_version,
    ensures
        match r {
            Some(k) => is_gap(history@, embedded@, k as int) && forall|j: int|
                0 <= j < k ==> !#[trigger] is_gap(history@, embedded@, j),
            None => forall|j: int| !#[trigger] is_gap(history@, embedded@, j),
        },
{
    let mut k: usize = 0;
    while k < embedded.len()
        invariant
            k <= embedded.len(),
            exists|j: int| 0 <= j < history@.len() && #[trigger] history@[j].version == max_version,
            forall|j: int| #[trigger] is_gap(history@, embedded@, j) ==> embedded@[j].version <= max_version,
            forall|j: int| 0 <= j < k ==> !#[trigger] is_gap(history@, embedded@, j),
        decreases embedded.len() - k,
    {
        let v = embedded[k].version;
        if v <= max_version && !is_applied(history, v) {
            proof {
                let jw = choose|j: int| 0 <= j < history@.len() && #[trigger] history@[j].version == max_version;
                assert(embedded@[k as int].version <= history@[jw].version);
                assert(is_gap(history@, embedded@, k as int));
            }
            return Some(k);
        }
        assert(!is_gap(history@, embedded@, k as int));
        k = k + 1;
    }
    assert forall|j: int| !#[trigger] is_gap(history@, embedded@, j) by {
        if is_gap(history@, embedded@, j) {
            assert(0 <= j < k);
        }
    }
    None
}

/// Judges a database whose migration history is absent or empty before any
/// row is read: with other schema objects present the database was not made
/// by this migrator and is refused; with none it is a fresh database and the
/// preflight passes with nothing allowed. `None` when the history has rows
/// and must be checked.
pub fn judge_unrecorded_history(history_table_exists: bool, history_is_empty: bool, has_other_schema_objects: bool) -> (r:
    Option<Result<MigrationPreflight, DbError>>)
    ensures
        history_table_exists && !history_is_empty ==> r is None,
        !(history_table_exists && !history_is_empty) && !has_other_schema_objects ==> (r matches Some(Ok(p))
            && !p.allow_missing_legacy_migration_36),
        !history_table_exists && has_other_schema_objects ==> (r matches Some(Err(e)) && is_compat_error(
            e,
            spec_compatibility_error(
                DB_MIGRATION_LINEAGE_INCOMPATIBLE@,
                None,
                "migration_history_missing_for_existing_schema"@,
                None,
                None,
                Seq::empty(),
            ),
        )),
        history_table_exists && history_is_empty && has_other_schema_objects ==> (r matches Some(Err(e))
            && is_compat_error(
            e,
            spec_compatibility_error(
                DB_MIGRATION_LINEAGE_INCOMPATIBLE@,
                None,
                "migration_history_empty_for_existing_schema"@,
                None,
                None,
                Seq::empty(),
            ),
        )),
{
    if history_table_exists && !history_is_empty {
        return None;
    }
    if !has_other_schema_objects {
        return Some(Ok(MigrationPreflight { allow_missing_legacy_migration_36: false }));
    }
    let none: Vec<String> = Vec::new();
    assert(none@.map_values(|s: String| s@) =~= Seq::<Seq<char>>::empty());
    let reason = if history_table_exists {
        "migration_history_empty_for_existing_schema"
    } else {
        "migration_history_missing_for_existing_schema"
    };
    Some(Err(compatibility_error(DB_MIGRATION_LINEAGE_INCOMPATIBLE, None, reason, None, None, none)))
}

/// Checks the applied history, in version order, against the embedded
/// migrations: a failed row or a version this build does not know stops it at
/// the first such row; then an embedded migration below the highest applied
/// version that was never applied is a gap. On success, tells whether the
/// retired migration 36 is present in the history.
pub fn check_migration_history(history: &[HistoryRow], embedded: &[EmbeddedMigration]) -> (r:
    Result<bool, DbError>)
    requires
        embedded_well_formed(embedded@),
    ensures
        history_verdict(history@, embedded@, r),
{
    let mut allow36 = false;
    let mut i: usize = 0;
    while i < history.len()
        invariant
            embedded_well_formed(embedded@),
            i <= history.len(),
            forall|j: int| 0 <= j < i ==> !row_rejected(#[trigger] history@[j], embedded@),
            allow36 == exists|j: int|
                0 <= j < i && #[trigger] is_legacy_36_row(history@[j]) && !embeds(
                    embedded@,
                    history@[j].version,
                ),
        decreases history.len() - i,
    {
        let row = &history[i];
        let (rejected, legacy_unembedded) = classify_row(row, embedded);
        if rejected {
            let err = row_error_of(row, embedded);
            return Err(err);
        }
        proof {
            if !legacy_unembedded && !allow36 {
                assert forall|j: int|
                    0 <= j < i + 1 implies !(#[trigger] is_legacy_36_row(history@[j]) && !embeds(
                    embedded@,
                    history@[j].version,
                )) by {
                    if j == i {
                    }
                }
            }
        }
        allow36 = allow36 || legacy_unembedded;
        i = i + 1;
    }
    assert(!exists|i: int| 0 <= i < history@.len() && #[trigger] row_rejected(history@[i], embedded@));
    let mut max_found = false;
    let mut max_version: i64 = 0;
    let mut i: usize = 0;
    while i < history.len()
        invariant
            i <= history.len(),
            max_found == (i > 0),
            max_found ==> exists|j: int| 0 <= j < i && #[trigger] history@[j].version == max_version,
            forall|j: int| 0 <= j < i ==> #[trigger] history@[j].version <= max_version,
        decreases history.len() - i,
    {
        if !max_found || history[i].version > max_version {
            max_version = history[i].version;
        }
        max_found = true;
        i = i + 1;
    }
    if max_found {
        proof {
            assert forall|j: int| #[trigger] is_gap(history@, embedded@, j) implies embedded@[j].version
                <= max_version by {
                let w = choose|w: int| 0 <= w < history@.len() && embedded@[j].version <= #[trigger] history@[w].version;
                assert(history@[w].version <= max_version);
            }
        }
        match first_gap(history, embedded, max_version) {
            Some(k) => {
                let m = &embedded[k];
                let none: Vec<String> = Vec::new();
                assert(none@.map_values(|s: String| s@) =~= Seq::<Seq<char>>::empty());
                let err = compatibility_error(
                    DB_MIGRATION_LINEAGE_INCOMPATIBLE,
                    Some(m.version),
                    "applied_history_gap",
                    None,
                    Some(m.checksum.as_slice()),
                    none,
                );
                return Err(err);
            },
            None => {},
        }
    } else {
        assert(forall|j: int| !#[trigger] is_gap(history@, embedded@, j));
    }
    Ok(allow36)
}

// ---------------------------------------------------------------------------
// Schema sentinels and checksums
// ---------------------------------------------------------------------------

/// The probes whose migration was applied and whose object is absent, in
/// probe order.
pub open spec fn spec_missing_sentinels(applied_versions: Seq<i64>, probes: Seq<SentinelProbe>) -> Seq<
    SentinelProbe,
>
    decreases probes.len(),
{
    if probes.len() == 0 {
        Seq::empty()
    } else {
        let rest = spec_missing_sentinels(applied_versions, probes.drop_last());
        let p = probes.last();
        if applied_versions.contains(p.migration_version) && !p.present {
            rest.push(p)
        } else {
            rest
        }
    }
}

/// A missing sentinel reports the probe it came from.
pub open spec fn reports(m: MissingSentinel, p: SentinelProbe) -> bool {
    m.migration_version == p.migration_version && m.code@ == p.code@
}

fn contains_version(versions: &[i64], v: i64) -> (r: bool)
    ensures
        r == versions@.contains(v),
{
    let mut j: usize = 0;
    while j < versions.len()
        invariant
            j <= versions.len(),
            forall|k: int| 0 <= k < j ==> versions@[k] != v,
        decreases versions.len() - j,
    {
        if versions[j] == v {
            assert(versions@[j as int] == v);
            return true;
        }
        j = j + 1;
    }
    false
}

/// The sentinels an applied migration should have left and the catalog does
/// not show: every probe whose migration version was applied and whose object
/// was not found, in probe order.
pub fn missing_sentinels(applied_versions: &[i64], probes: &[SentinelProbe]) -> (r: Vec<
    MissingSentinel,
>)
    ensures
        r@.len() == spec_missing_sentinels(applied_versions@, probes@).len(),
        forall|k: int|
            0 <= k < r@.len() ==> reports(#[trigger] r@[k], spec_missing_sentinels(applied_versions@, probes@)[k]),
{
    let mut out: Vec<MissingSentinel> = Vec::new();
    let mut i: usize = 0;
    while i < probes.len()
        invariant
            i <= probes.len(),
            out@.len() == spec_missing_sentinels(applied_versions@, probes@.subrange(0, i as int)).len(),
            forall|k: int|
                0 <= k < out@.len() ==> reports(
                    #[trigger] out@[k],
                    spec_missing_sentinels(applied_versions@, probes@.subrange(0, i as int))[k],
                ),
        decreases probes.len() - i,
    {
        let p = &probes[i];
        let is_applied_version = contains_version(applied_versions, p.migration_version);
        assert(probes@.subrange(0, i + 1).drop_last() == probes@.subrange(0, i as int));
        if is_applied_version && !p.present {
            out.push(MissingSentinel { migration_version: p.migration_version, code: p.code });
        }
        i = i + 1;
    }
    assert(probes@.subrange(0, probes.len() as int) == probes@);
    out
}

/// The lowest version among the missing sentinels.
pub open spec fn min_missing_version(m: Seq<MissingSentinel>) -> i64
    decreases m.len(),
{
    if m.len() <= 1 {
        m[0].migration_version
    } else {
        let rest = min_missing_version(m.drop_last());
        if m.last().migration_version < rest {
            m.last().migration_version
        } else {
            rest
        }
    }
}

/// The checksum the history row must carry: the allow-listed legacy checksum
/// for migration 36, else the embedded one.
pub open spec fn expected_checksum(r: HistoryRow, e: Seq<EmbeddedMigration>) -> Seq<u8> {
    if r.version == LEGACY_MIGRATION_36_VERSION {
        legacy_36_checksum()
    } else {
        e[embedded_index(e, r.version)].checksum@
    }
}

pub open spec fn checksum_error(r: HistoryRow, e: Seq<EmbeddedMigration>) -> super::CompatibilityErrorView {
    spec_compatibility_error(
        DB_MIGRATION_CHECKSUM_UNKNOWN@,
        Some(r.version),
        "checksum_not_allowlisted"@,
        Some(r.checksum@),
        Some(expected_checksum(r, e)),
        Seq::empty(),
    )
}

pub open spec fn sentinel_error(m: Seq<MissingSentinel>) -> super::CompatibilityErrorView {
    spec_compatibility_error(
        DB_MIGRATION_SCHEMA_SENTINEL_MISSING@,
        Some(min_missing_version(m)),
        "applied_migration_schema_missing"@,
        None,
        None,
        sentinel_codes(m),
    )
}

/// The codes of the missing sentinels, in order.
pub open spec fn sentinel_codes(m: Seq<MissingSentinel>) -> Seq<Seq<char>> {
    m.map_values(|s: MissingSentinel| s.code@)
}

fn min_version_of(missing: &[MissingSentinel]) -> (r: i64)
    requires
        missing.len() > 0,
    ensures
        r == min_missing_version(missing@),
{
    let mut best = missing[0].migration_version;
    let mut i: usize = 1;
    while i < missing.len()
        invariant
            1 <= i <= missing.len(),
            best == min_missing_version(missing@.subrange(0, i as int)),
        decreases missing.len() - i,
    {
        assert(missing@.subrange(0, i + 1).drop_last() == missing@.subrange(0, i as int));
        if missing[i].migration_version < best {
            best = missing[i].migration_version;
        }
        i = i + 1;
    }
    assert(missing@.subrange(0, missing.len() as int) == missing@);
    best
}

fn checksum_matches(a: &[u8], b: &[u8]) -> (r: bool)
    ensures
        r == (a@ == b@),
{
    if a.len() != b.len() {
        return false;
    }
    let mut i: usize = 0;
    while i < a.len()
        invariant
            a.len() == b.len(),
            i <= a.len(),
            forall|k: int| 0 <= k < i ==> a@[k] == b@[k],
        decreases a.len() - i,
    {
        if a[i] != b[i] {
            return false;
        }
        i = i + 1;
    }
    assert(a@ =~= b@);
    true
}

/// Finishes the preflight once the history passed `check_migration_history`:
/// a missing schema sentinel outranks every checksum mismatch and is reported
/// with the lowest missing version and every missing code; otherwise the
/// first row whose checksum is not the embedded one (or, for migration 36,
/// the allow-listed legacy one) fails.
pub fn conclude_preflight(
    history: &[HistoryRow],
    embedded: &[EmbeddedMigration],
    missing: Vec<MissingSentinel>,
    allow_missing_legacy_migration_36: bool,
) -> (r: Result<MigrationPreflight, DbError>)
    requires
        embedded_well_formed(embedded@),
        forall|i: int|
            0 <= i < history@.len() ==> #[trigger] history@[i].version == LEGACY_MIGRATION_36_VERSION
                || embeds(embedded@, history@[i].version),
    ensures
        missing@.len() > 0 ==> (r matches Err(e) && is_compat_error(e, sentinel_error(missing@))),
        missing@.len() == 0 ==> match r {
            Ok(p) => p.allow_missing_legacy_migration_36 == allow_missing_legacy_migration_36
                && forall|i: int|
                0 <= i < history@.len() ==> (#[trigger] history@[i]).checksum@ == expected_checksum(
                    history@[i],
                    embedded@,
                ),
            Err(e) => exists|i: int|
                0 <= i < history@.len() && (#[trigger] history@[i]).checksum@ != expected_checksum(
                    history@[i],
                    embedded@,
                ) && (forall|j: int|
                    0 <= j < i ==> (#[trigger] history@[j]).checksum@ == expected_checksum(
                        history@[j],
                        embedded@,
                    )) && is_compat_error(e, checksum_error(history@[i], embedded@)),
        },
{
    if missing.len() > 0 {
        let version = min_version_of(missing.as_slice());
        let ghost m = missing@;
        let mut codes: Vec<String> = Vec::new();
        let mut i: usize = 0;
        while i < missing.len()
            invariant
                m == missing@,
                i <= missing.len(),
                codes@.len() == i,
                forall|k: int| 0 <= k < i ==> (#[trigger] codes@[k])@ == m[k].code@,
            decreases missing.len() - i,
        {
            let code = crate::text::owned(missing[i].code);
            codes.push(code);
            i = i + 1;
        }
        assert(codes@.map_values(|s: String| s@) =~= sentinel_codes(m));
        return Err(
            compatibility_error(
                DB_MIGRATION_SCHEMA_SENTINEL_MISSING,
                Some(version),
                "applied_migration_schema_missing",
                None,
                None,
                codes,
            ),
        );
    }
    let legacy = legacy_36_checksum_bytes();
    let mut i: usize = 0;
    while i < history.len()
        invariant
            embedded_well_formed(embedded@),
            legacy@ == legacy_36_checksum(),
            missing@.len() == 0,
            i <= history.len(),
            forall|j: int|
                0 <= j < history@.len() ==> #[trigger] history@[j].version == LEGACY_MIGRATION_36_VERSION
                    || embeds(embedded@, history@[j].version),
            forall|j: int|
                0 <= j < i ==> (#[trigger] history@[j]).checksum@ == expected_checksum(
                    history@[j],
                    embedded@,
                ),
        decreases history.len() - i,
    {
        let row = &history[i];
        let expected: &[u8] = if row.version == LEGACY_MIGRATION_36_VERSION {
            legacy.as_slice()
        } else {
            assert(embeds(embedded@, history@[i as int].version));
            let k = find_embedded(embedded, row.version).unwrap();
            embedded[k].checksum.as_slice()
        };
        if !checksum_matches(row.checksum.as_slice(), expected) {
            let none: Vec<String> = Vec::new();
            assert(none@.map_values(|s: String| s@) =~= Seq::<Seq<char>>::empty());
            return Err(
                compatibility_error(
                    DB_MIGRATION_CHECKSUM_UNKNOWN,
                    Some(row.version),
                    "checksum_not_allowlisted",
                    Some(row.checksum.as_slice()),
                    Some(expected),
                    none,
                ),
            );
        }
        i = i + 1;
    }
    Ok(MigrationPreflight { allow_missing_legacy_migration_36 })
}

} // verus!
