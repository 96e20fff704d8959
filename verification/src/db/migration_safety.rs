//! Read-only migration-lineage checks: the physical validation of a SQLite
//! WAL/SHM pair and the classification of the applied migration history.
use vstd::prelude::*;

use super::{
    opt_view, CompatibilityErrorView, DbError, DbMigrationCompatibilityError,
    DB_MIGRATION_APPLIED_VERSION_UNKNOWN, DB_MIGRATION_CHECKSUM_UNKNOWN,
    DB_MIGRATION_LINEAGE_INCOMPATIBLE, DB_MIGRATION_SCHEMA_SENTINEL_MISSING,
};
use super::lineage::MigrationPreflight;
use crate::text::{
    ascii_lower, chars_of, is_whitespace, push_char, spec_ascii_lower, spec_hex, spec_is_whitespace,
    spec_normalize_sql, hex_lower,
};

verus! {

// ---------------------------------------------------------------------------
// Errors
// ---------------------------------------------------------------------------

pub open spec fn opt_hex(o: Option<Seq<u8>>) -> Option<Seq<char>> {
    match o {
        Some(b) => Some(spec_hex(b)),
        None => None,
    }
}

/// What `compatibility_error` builds.
pub open spec fn spec_compatibility_error(
    code: Seq<char>,
    version: Option<i64>,
    reason: Seq<char>,
    stored: Option<Seq<u8>>,
    current: Option<Seq<u8>>,
    missing: Seq<Seq<char>>,
) -> CompatibilityErrorView {
    CompatibilityErrorView {
        code,
        version,
        reason,
        stored_checksum: opt_hex(stored),
        current_checksum: opt_hex(current),
        missing_sentinels: missing,
    }
}

/// Whether `e` is the compatibility error that `spec_compatibility_error` describes.
pub open spec fn is_compat_error(e: DbError, v: CompatibilityErrorView) -> bool {
    e matches DbError::MigrationCompatibility(inner) && inner@ == v
}

/// Lower-case hexadecimal of a migration checksum.
pub fn checksum_hex(checksum: &[u8]) -> (r: String)
    ensures
        r@ == spec_hex(checksum@),
{
    hex_lower(checksum)
}

fn opt_checksum_hex(checksum: Option<&[u8]>) -> (r: Option<String>)
    ensures
        opt_view(r) == opt_hex(
            match checksum {
                Some(c) => Some(c@),
                None => None,
            },
        ),
{
    match checksum {
        Some(c) => Some(checksum_hex(c)),
        None => None,
    }
}

/// A structured, non-sensitive compatibility error.
pub fn compatibility_error(
    code: &'static str,
    version: Option<i64>,
    reason: &'static str,
    stored_checksum: Option<&[u8]>,
    current_checksum: Option<&[u8]>,
    missing_sentinels: Vec<String>,
) -> (r: DbError)
    ensures
        is_compat_error(
            r,
            spec_compatibility_error(
                code@,
                version,
                reason@,
                match stored_checksum {
                    Some(c) => Some(c@),
                    None => None,
                },
                match current_checksum {
                    Some(c) => Some(c@),
                    None => None,
                },
                missing_sentinels@.map_values(|s: String| s@),
            ),
        ),
{
    let error = DbMigrationCompatibilityError {
        code,
        version,
        reason,
        stored_checksum: opt_checksum_hex(stored_checksum),
        current_checksum: opt_checksum_hex(current_checksum),
        missing_sentinels,
    };
    DbError::MigrationCompatibility(error)
}

pub const WAL_PHYSICAL_VALIDATION_FAILED: &'static str = "wal_sidecar_physical_validation_failed";

/// The error of every failed sidecar recovery step.
pub fn sidecar_recovery_error(reason: &'static str) -> (r: DbError)
    ensures
        is_compat_error(
            r,
            spec_compatibility_error(
                DB_MIGRATION_LINEAGE_INCOMPATIBLE@,
                None,
                reason@,
                None,
                None,
                Seq::empty(),
            ),
        ),
{
    let none: Vec<String> = Vec::new();
    assert(none@.map_values(|s: String| s@) =~= Seq::<Seq<char>>::empty());
    compatibility_error(DB_MIGRATION_LINEAGE_INCOMPATIBLE, None, reason, None, None, none)
}

// ---------------------------------------------------------------------------
// Sidecar recovery decisions
// ---------------------------------------------------------------------------

/// What startup does about the files SQLite keeps beside a database.
#[derive(Debug, Clone, Copy, PartialEq, Eq, Structural)]
pub enum SidecarAction {
    /// No `-wal`, `-shm` or `-journal` file: open the database as it is.
    NoSidecars,
    /// An empty WAL with its SHM: let SQLite retire the pair under an
    /// exclusive lock after auditing the main database.
    RetireEmptyPair,
    /// A WAL with frames and its SHM: validate, back up, audit and
    /// checkpoint the pair.
    RecoverPair,
}

/// The sidecar shapes that must be refused before SQLite opens the file:
/// a rollback journal, a WAL without its SHM, an SHM without its WAL.
pub open spec fn sidecars_refused(wal_exists: bool, shm_exists: bool, journal_exists: bool) -> bool {
    (wal_exists || shm_exists || journal_exists) && (journal_exists || !wal_exists || !shm_exists)
}

/// Decides what to do about the sidecars found beside a database; `wal_len`
/// is the WAL's length when it exists. Every other shape than none or a
/// complete WAL/SHM pair is refused, an orphaned SHM included.
pub fn sidecar_verdict(wal_exists: bool, shm_exists: bool, journal_exists: bool, wal_len: u64) -> (r: Result<
    SidecarAction,
    DbError,
>)
    ensures
        !wal_exists && !shm_exists && !journal_exists ==> r == Ok::<SidecarAction, DbError>(SidecarAction::NoSidecars),
        sidecars_refused(wal_exists, shm_exists, journal_exists) ==> (r matches Err(e) && is_compat_error(
            e,
            spec_compatibility_error(
                DB_MIGRATION_LINEAGE_INCOMPATIBLE@,
                None,
                "wal_sidecar_present_requires_recovery"@,
                None,
                None,
                Seq::empty(),
            ),
        )),
        wal_exists && shm_exists && !journal_exists ==> r == Ok::<SidecarAction, DbError>(
            if wal_len == 0 { SidecarAction::RetireEmptyPair } else { SidecarAction::RecoverPair },
        ),
{
    if !wal_exists && !shm_exists && !journal_exists {
        return Ok(SidecarAction::NoSidecars);
    }
    if journal_exists || !wal_exists || !shm_exists {
        return Err(sidecar_recovery_error("wal_sidecar_present_requires_recovery"));
    }
    if wal_len == 0 {
        Ok(SidecarAction::RetireEmptyPair)
    } else {
        Ok(SidecarAction::RecoverPair)
    }
}

/// Whether two texts are equal up to ASCII case.
pub open spec fn eq_ascii_case(a: Seq<char>, b: Seq<char>) -> bool {
    a.len() == b.len() && forall|i: int| 0 <= i < a.len() ==> spec_ascii_lower(#[trigger] a[i]) == spec_ascii_lower(b[i])
}

/// Compares two texts ignoring ASCII case.
pub fn eq_ignore_ascii_case(a: &str, b: &str) -> (r: bool)
    ensures
        r == eq_ascii_case(a@, b@),
{
    let x = chars_of(a);
    let y = chars_of(b);
    if x.len() != y.len() {
        return false;
    }
    let mut i: usize = 0;
    while i < x.len()
        invariant
            x.len() == y.len(),
            x@ == a@,
            y@ == b@,
            i <= x.len(),
            forall|k: int| 0 <= k < i ==> spec_ascii_lower(#[trigger] x@[k]) == spec_ascii_lower(y@[k]),
        decreases x.len() - i,
    {
        if ascii_lower(x[i]) != ascii_lower(y[i]) {
            return false;
        }
        i = i + 1;
    }
    true
}

/// The highest migration version a WAL pair may be recovered at: the last
/// one of the release whose WAL files are recovered.
pub const LEGACY_RECOVERY_MAX_VERSION: i64 = 62;

/// Concludes the audit run on the recovered database under its exclusive
/// lock, in this order: the preflight's own refusal, a failed read of the
/// highest applied version, a version past the recoverable release, a
/// failed integrity read, an integrity check that is not `ok` (in any
/// ASCII case); otherwise the preflight stands.
pub fn recovery_audit_verdict(
    preflight: Result<MigrationPreflight, DbError>,
    max_version: Result<Option<i64>, DbError>,
    integrity: Result<String, DbError>,
) -> (r: Result<MigrationPreflight, DbError>)
    ensures
        preflight is Err ==> r == preflight,
        preflight is Ok ==> match max_version {
            Err(e) => r == Err::<MigrationPreflight, DbError>(e),
            Ok(v) => if (v matches Some(m) && m > LEGACY_RECOVERY_MAX_VERSION) {
                r matches Err(e) && is_compat_error(
                    e,
                    spec_compatibility_error(
                        DB_MIGRATION_LINEAGE_INCOMPATIBLE@,
                        None,
                        "wal_sidecar_version_not_legacy_082"@,
                        None,
                        None,
                        Seq::empty(),
                    ),
                )
            } else {
                match integrity {
                    Err(e) => r == Err::<MigrationPreflight, DbError>(e),
                    Ok(text) => if eq_ascii_case(text@, "ok"@) {
                        r == preflight
                    } else {
                        r matches Err(e) && is_compat_error(
                            e,
                            spec_compatibility_error(
                                DB_MIGRATION_LINEAGE_INCOMPATIBLE@,
                                None,
                                "wal_sidecar_integrity_check_failed"@,
                                None,
                                None,
                                Seq::empty(),
                            ),
                        )
                    },
                }
            },
        },
{
    let p = match preflight {
        Ok(p) => p,
        Err(e) => return Err(e),
    };
    let version = match max_version {
        Ok(v) => v,
        Err(e) => return Err(e),
    };
    let highest = match version {
        Some(m) => m,
        None => 0,
    };
    if highest > LEGACY_RECOVERY_MAX_VERSION {
        return Err(sidecar_recovery_error("wal_sidecar_version_not_legacy_082"));
    }
    let text = match integrity {
        Ok(t) => t,
        Err(e) => return Err(e),
    };
    if !eq_ignore_ascii_case(text.as_str(), "ok") {
        return Err(sidecar_recovery_error("wal_sidecar_integrity_check_failed"));
    }
    Ok(p)
}

// ---------------------------------------------------------------------------
// WAL/SHM physical validation
// ---------------------------------------------------------------------------

pub open spec fn be32(b: Seq<u8>, i: int) -> u32 {
    (b[i] as int * 0x100_0000 + b[i + 1] as int * 0x1_0000 + b[i + 2] as int * 0x100 + b[i
        + 3] as int) as u32
}

pub open spec fn le32(b: Seq<u8>, i: int) -> u32 {
    (b[i + 3] as int * 0x100_0000 + b[i + 2] as int * 0x1_0000 + b[i + 1] as int * 0x100
        + b[i] as int) as u32
}

pub open spec fn be16(b: Seq<u8>, i: int) -> int {
    b[i] as int * 0x100 + b[i + 1] as int
}

/// A 32-bit checksum word in the byte order the WAL header selects.
pub open spec fn word(b: Seq<u8>, i: int, big_endian: bool) -> u32 {
    if big_endian {
        be32(b, i)
    } else {
        le32(b, i)
    }
}

/// Addition modulo 2^32.
pub open spec fn wadd(x: u32, y: u32) -> u32 {
    ((x as int + y as int) % 0x1_0000_0000) as u32
}

/// SQLite's WAL checksum over every complete 8-byte chunk of `bytes`,
/// continuing from `state`; a trailing partial chunk is ignored.
pub open spec fn spec_wal_checksum(bytes: Seq<u8>, big_endian: bool, state: (u32, u32)) -> (u32, u32)
    decreases bytes.len(),
{
    if bytes.len() < 8 {
        state
    } else {
        let s0 = wadd(wadd(state.0, word(bytes, 0, big_endian)), state.1);
        let s1 = wadd(wadd(state.1, word(bytes, 4, big_endian)), s0);
        spec_wal_checksum(bytes.subrange(8, bytes.len() as int), big_endian, (s0, s1))
    }
}

/// One chunk of SQLite's WAL checksum: with `x0` and `x1` the chunk's two
/// 32-bit words in the given byte order, the first sum becomes
/// `s0 + x0 + s1` and the second becomes `s1 + x1` plus the first sum just
/// computed, both modulo 2^32.
pub proof fn lemma_wal_checksum_chunk(bytes: Seq<u8>, big_endian: bool, state: (u32, u32))
    requires
        bytes.len() == 8,
    ensures
        ({
            let x0: int = if big_endian {
                bytes[0] * 0x100_0000 + bytes[1] * 0x1_0000 + bytes[2] * 0x100 + bytes[3]
            } else {
                bytes[3] * 0x100_0000 + bytes[2] * 0x1_0000 + bytes[1] * 0x100 + bytes[0]
            };
            let x1: int = if big_endian {
                bytes[4] * 0x100_0000 + bytes[5] * 0x1_0000 + bytes[6] * 0x100 + bytes[7]
            } else {
                bytes[7] * 0x100_0000 + bytes[6] * 0x1_0000 + bytes[5] * 0x100 + bytes[4]
            };
            let s0: int = (state.0 + x0 + state.1) % 0x1_0000_0000;
            let s1: int = (state.1 + x1 + s0) % 0x1_0000_0000;
            spec_wal_checksum(bytes, big_endian, state) == (s0 as u32, s1 as u32)
        }),
{
    let x0 = word(bytes, 0, big_endian);
    let x1 = word(bytes, 4, big_endian);
    let a = wadd(wadd(state.0, x0), state.1);
    let b = wadd(wadd(state.1, x1), a);
    assert(bytes.subrange(8, 8).len() == 0);
    assert(spec_wal_checksum(bytes.subrange(8, bytes.len() as int), big_endian, (a, b)) == (a, b));
    assert(spec_wal_checksum(bytes, big_endian, state) == (a, b));
    let m: int = 0x1_0000_0000;
    assert(a as int == ((state.0 as int + x0 as int) % m + state.1 as int) % m);
    vstd::arithmetic::div_mod::lemma_add_mod_noop_right(state.1 as int, state.0 as int + x0 as int, m);
    vstd::arithmetic::div_mod::lemma_add_mod_noop_right(a as int, state.1 as int + x1 as int, m);
    assert(b as int == ((state.1 as int + x1 as int) % m + a as int) % m);
}

/// A trailing partial chunk leaves the checksum as it was.
pub proof fn lemma_wal_checksum_partial(bytes: Seq<u8>, big_endian: bool, state: (u32, u32))
    requires
        bytes.len() < 8,
    ensures
        spec_wal_checksum(bytes, big_endian, state) == state,
{
}

/// The checksum runs over the chunks in order: checksumming `a` and then
/// `b` from where `a` left off is checksumming `a + b`, for `a` made of whole
/// chunks.
pub proof fn lemma_wal_checksum_concat(a: Seq<u8>, b: Seq<u8>, big_endian: bool, state: (u32, u32))
    requires
        a.len() % 8 == 0,
    ensures
        spec_wal_checksum(a + b, big_endian, state) == spec_wal_checksum(b, big_endian, spec_wal_checksum(a, big_endian, state)),
    decreases a.len(),
{
    if a.len() > 0 {
        let s0 = wadd(wadd(state.0, word(a, 0, big_endian)), state.1);
        let s1 = wadd(wadd(state.1, word(a, 4, big_endian)), s0);
        assert((a + b).subrange(8, (a + b).len() as int) =~= a.subrange(8, a.len() as int) + b);
        assert(word(a + b, 0, big_endian) == word(a, 0, big_endian));
        assert(word(a + b, 4, big_endian) == word(a, 4, big_endian));
        lemma_wal_checksum_concat(a.subrange(8, a.len() as int), b, big_endian, (s0, s1));
    } else {
        assert(a + b =~= b);
    }
}

fn be32_at(b: &[u8], i: usize) -> (r: u32)
    requires
        i + 4 <= b.len(),
    ensures
        r == be32(b@, i as int),
{
    (b[i] as u32) * 0x100_0000 + (b[i + 1] as u32) * 0x1_0000 + (b[i + 2] as u32) * 0x100 + (b[i
        + 3] as u32)
}

fn le32_at(b: &[u8], i: usize) -> (r: u32)
    requires
        i + 4 <= b.len(),
    ensures
        r == le32(b@, i as int),
{
    (b[i + 3] as u32) * 0x100_0000 + (b[i + 2] as u32) * 0x1_0000 + (b[i + 1] as u32) * 0x100
        + (b[i] as u32)
}

fn word_at(b: &[u8], i: usize, big_endian: bool) -> (r: u32)
    requires
        i + 4 <= b.len(),
    ensures
        r == word(b@, i as int, big_endian),
{
    if big_endian {
        be32_at(b, i)
    } else {
        le32_at(b, i)
    }
}

/// A four-byte WAL word in the given byte order.
pub fn read_u32(bytes: &[u8], big_endian: bool) -> (r: u32)
    requires
        bytes.len() == 4,
    ensures
        r == word(bytes@, 0, big_endian),
{
    word_at(bytes, 0, big_endian)
}

fn wrapping_add_u32(x: u32, y: u32) -> (r: u32)
    ensures
        r == wadd(x, y),
{
    x.wrapping_add(y)
}

/// The WAL checksum of `bytes[start..end]` continuing from `state`.
fn checksum_range(bytes: &[u8], start: usize, end: usize, big_endian: bool, state: (u32, u32)) -> (r: (
    u32,
    u32,
))
    requires
        start <= end <= bytes.len(),
    ensures
        r == spec_wal_checksum(bytes@.subrange(start as int, end as int), big_endian, state),
{
    let mut s = state;
    let mut pos = start;
    while end - pos >= 8
        invariant
            start <= pos <= end <= bytes.len(),
            spec_wal_checksum(bytes@.subrange(start as int, end as int), big_endian, state)
                == spec_wal_checksum(bytes@.subrange(pos as int, end as int), big_endian, s),
        decreases end - pos,
    {
        let ghost rest = bytes@.subrange(pos as int, end as int);
        let first = word_at(bytes, pos, big_endian);
        let second = word_at(bytes, pos + 4, big_endian);
        assert(word(rest, 0, big_endian) == first);
        assert(word(rest, 4, big_endian) == second);
        let s0 = wrapping_add_u32(wrapping_add_u32(s.0, first), s.1);
        let s1 = wrapping_add_u32(wrapping_add_u32(s.1, second), s0);
        assert(rest.subrange(8, rest.len() as int) == bytes@.subrange(pos + 8, end as int));
        s = (s0, s1);
        pos = pos + 8;
    }
    s
}

/// SQLite's WAL checksum over `bytes`, continuing from `state`.
pub fn wal_checksum(bytes: &[u8], big_endian: bool, state: (u32, u32)) -> (r: (u32, u32))
    ensures
        r == spec_wal_checksum(bytes@, big_endian, state),
{
    let r = checksum_range(bytes, 0, bytes.len(), big_endian, state);
    assert(bytes@.subrange(0, bytes@.len() as int) == bytes@);
    r
}

/// The page sizes SQLite allows: powers of two from 512 to 65536.
pub open spec fn valid_page_size(p: int) -> bool {
    p == 512 || p == 1024 || p == 2048 || p == 4096 || p == 8192 || p == 16384 || p == 32768 || p
        == 65536
}

pub open spec fn decoded_page_size(encoded: int) -> int {
    if encoded == 1 {
        65536
    } else {
        encoded
    }
}

/// Whether the four bytes at `i` are all zero.
pub open spec fn zero4(b: Seq<u8>, i: int) -> bool {
    b[i] == 0 && b[i + 1] == 0 && b[i + 2] == 0 && b[i + 3] == 0
}

pub open spec fn frame_start(i: int, frame_size: int) -> int {
    32 + i * frame_size
}

/// The running checksum after the WAL header and the first `n` frames.
#[verifier::opaque]
pub open spec fn frame_chain(wal: Seq<u8>, frame_size: int, big_endian: bool, n: nat) -> (u32, u32)
    decreases n,
{
    if n == 0 {
        spec_wal_checksum(wal.subrange(0, 24), big_endian, (0, 0))
    } else {
        let st = frame_chain(wal, frame_size, big_endian, (n - 1) as nat);
        let f = frame_start(n - 1, frame_size);
        spec_wal_checksum(
            wal.subrange(f + 24, f + frame_size),
            big_endian,
            spec_wal_checksum(wal.subrange(f, f + 8), big_endian, st),
        )
    }
}

/// Frame `i` has a page number, the header's salt, and the checksum of the chain.
#[verifier::opaque]
pub open spec fn frame_valid(wal: Seq<u8>, frame_size: int, big_endian: bool, i: nat) -> bool {
    let f = frame_start(i as int, frame_size);
    &&& !zero4(wal, f)
    &&& wal.subrange(f + 8, f + 16) == wal.subrange(16, 24)
    &&& frame_chain(wal, frame_size, big_endian, i + 1) == (be32(wal, f + 16), be32(wal, f + 20))
}

/// Whether frame `i` carries a commit marker.
pub open spec fn frame_commits(wal: Seq<u8>, frame_size: int, i: int) -> bool {
    !zero4(wal, frame_start(i, frame_size) + 4)
}

/// The complete physical validity of a WAL file, its SHM index and the first
/// bytes of the main database file.
pub open spec fn wal_pair_valid(wal: Seq<u8>, shm: Seq<u8>, db: Seq<u8>) -> bool {
    let magic = be32(wal, 0);
    let big_endian = magic == 0x377f_0683;
    let page_size = decoded_page_size(be32(wal, 8) as int);
    let frame_size = 24 + page_size;
    let max_frame = le32(shm, 16) as int;
    let active_end = 32 + max_frame * frame_size;
    &&& wal.len() >= 32
    &&& shm.len() >= 136
    &&& shm.len() % 32768 == 0
    &&& (magic == 0x377f_0682 || magic == 0x377f_0683)
    &&& be32(wal, 4) == 3_007_000
    &&& valid_page_size(page_size)
    &&& db.len() >= 100
    &&& db.subrange(0, 16) == sqlite_magic()
    &&& decoded_page_size(be16(db, 16)) == page_size
    &&& (wal.len() - 32) % frame_size == 0
    &&& wal.len() != 32
    &&& shm.subrange(0, 48) == shm.subrange(48, 96)
    &&& le32(shm, 0) == 3_007_000
    &&& shm[12] == 1
    &&& max_frame != 0
    &&& active_end <= wal.len()
    &&& spec_wal_checksum(wal.subrange(0, 24), big_endian, (0, 0)) == (be32(wal, 24), be32(wal, 28))
    &&& forall|i: nat| i < max_frame ==> #[trigger] frame_valid(wal, frame_size, big_endian, i)
    &&& exists|i: int| 0 <= i < max_frame && #[trigger] frame_commits(wal, frame_size, i)
}

fn bytes_equal(a: &[u8], a_start: usize, b: &[u8], b_start: usize, len: usize) -> (r: bool)
    requires
        a_start + len <= a.len(),
        b_start + len <= b.len(),
    ensures
        r == (a@.subrange(a_start as int, a_start + len) == b@.subrange(b_start as int, b_start + len)),
{
    let ghost sa = a@.subrange(a_start as int, a_start + len);
    let ghost sb = b@.subrange(b_start as int, b_start + len);
    let mut i: usize = 0;
    while i < len
        invariant
            a_start + len <= a.len(),
            b_start + len <= b.len(),
            sa == a@.subrange(a_start as int, a_start + len),
            sb == b@.subrange(b_start as int, b_start + len),
            i <= len,
            forall|k: int| 0 <= k < i ==> #[trigger] sa[k] == sb[k],
        decreases len - i,
    {
        assert(sa[i as int] == a@[a_start + i]);
        assert(sb[i as int] == b@[b_start + i]);
        if a[a_start + i] != b[b_start + i] {
            return false;
        }
        i = i + 1;
    }
    assert(sa =~= sb);
    true
}

/// The 16-byte header string of every SQLite database file, "SQLite format 3\0".
pub open spec fn sqlite_magic() -> Seq<u8> {
    seq![0x53u8, 0x51, 0x4c, 0x69, 0x74, 0x65, 0x20, 0x66, 0x6f, 0x72, 0x6d, 0x61, 0x74, 0x20, 0x33, 0x00]
}

fn is_sqlite_magic(db: &[u8]) -> (r: bool)
    requires
        db.len() >= 16,
    ensures
        r == (db@.subrange(0, 16) == sqlite_magic()),
{
    let expected: [u8; 16] = [
        0x53, 0x51, 0x4c, 0x69, 0x74, 0x65, 0x20, 0x66, 0x6f, 0x72, 0x6d, 0x61, 0x74, 0x20, 0x33, 0x00,
    ];
    assert(expected@ =~= sqlite_magic());
    let r = bytes_equal(db, 0, &expected, 0, 16);
    assert(expected@.subrange(0, 16) =~= expected@);
    r
}

fn is_valid_page_size(p: usize) -> (r: bool)
    ensures
        r == valid_page_size(p as int),
{
    p == 512 || p == 1024 || p == 2048 || p == 4096 || p == 8192 || p == 16384 || p == 32768 || p
        == 65536
}

/// Checks frame `i`, which starts at `pos`, against the running checksum
/// `state`; on success gives the next running checksum and whether the frame
/// commits.
fn check_frame(
    wal: &[u8],
    pos: usize,
    frame_size: usize,
    big_endian: bool,
    state: (u32, u32),
    Ghost(i): Ghost<nat>,
) -> (r: Option<((u32, u32), bool)>)
    requires
        32 <= frame_size,
        pos + frame_size <= wal.len(),
        32 <= wal.len(),
        pos == frame_start(i as int, frame_size as int),
        state == frame_chain(wal@, frame_size as int, big_endian, i),
    ensures
        r is Some <==> frame_valid(wal@, frame_size as int, big_endian, i),
        r matches Some((next, commits)) ==> next == frame_chain(
            wal@,
            frame_size as int,
            big_endian,
            i + 1,
        ) && commits == frame_commits(wal@, frame_size as int, i as int),
{
    let ghost fs = frame_size as int;
    reveal(frame_valid);
    reveal(frame_chain);
    if (wal[pos] == 0 && wal[pos + 1] == 0 && wal[pos + 2] == 0 && wal[pos + 3] == 0)
        || !bytes_equal(wal, pos + 8, wal, 16, 8) {
        return None;
    }
    let c1 = checksum_range(wal, pos, pos + 8, big_endian, state);
    let c2 = checksum_range(wal, pos + 24, pos + frame_size, big_endian, c1);
    assert(c2 == frame_chain(wal@, fs, big_endian, i + 1));
    let stored = (be32_at(wal, pos + 16), be32_at(wal, pos + 20));
    if c2.0 != stored.0 || c2.1 != stored.1 {
        return None;
    }
    let commits = !(wal[pos + 4] == 0 && wal[pos + 5] == 0 && wal[pos + 6] == 0 && wal[pos + 7] == 0);
    Some((c2, commits))
}

/// Walks the `max_frame` active frames after the WAL header, checking each
/// against the running salted checksum; true when every frame is valid and at
/// least one of them commits.
fn check_active_frames(
    wal: &[u8],
    frame_size: usize,
    big_endian: bool,
    header_checksum: (u32, u32),
    max_frame: usize,
) -> (r: bool)
    requires
        32 <= frame_size,
        32 <= wal.len(),
        32 + max_frame * frame_size <= wal.len(),
        header_checksum == frame_chain(wal@, frame_size as int, big_endian, 0),
    ensures
        r == ((forall|i: nat| i < max_frame ==> #[trigger] frame_valid(wal@, frame_size as int, big_endian, i))
            && exists|i: int| 0 <= i < max_frame && #[trigger] frame_commits(wal@, frame_size as int, i)),
{
    let ghost fs = frame_size as int;
    let mut checksum = header_checksum;
    let mut has_commit = false;
    let mut i: usize = 0;
    let mut pos: usize = 32;
    while i < max_frame
        invariant
            32 <= frame_size,
            32 <= wal.len(),
            fs == frame_size as int,
            32 + max_frame * frame_size <= wal.len(),
            i <= max_frame,
            pos == 32 + i * frame_size,
            checksum == frame_chain(wal@, fs, big_endian, i as nat),
            forall|k: nat| k < i ==> #[trigger] frame_valid(wal@, fs, big_endian, k),
            has_commit == exists|k: int| 0 <= k < i && #[trigger] frame_commits(wal@, fs, k),
        decreases max_frame - i,
    {
        assert(pos + frame_size <= 32 + max_frame * frame_size) by (nonlinear_arith)
            requires
                pos == 32 + i * frame_size,
                i < max_frame,
        ;
        let step = check_frame(wal, pos, frame_size, big_endian, checksum, Ghost(i as nat));
        let (next, commits) = match step {
            Some(v) => v,
            None => {
                return false;
            },
        };
        proof {
            if has_commit {
                let k = choose|k: int| 0 <= k < i && #[trigger] frame_commits(wal@, fs, k);
                assert(0 <= k < i + 1 && frame_commits(wal@, fs, k));
            }
            if commits {
                assert(frame_commits(wal@, fs, i as int));
            }
            if !has_commit && !commits {
                assert forall|k: int| 0 <= k < i + 1 implies !#[trigger] frame_commits(wal@, fs, k) by {
                    if k < i {
                    }
                }
            }
        }
        has_commit = has_commit || commits;
        checksum = next;
        assert(pos + frame_size == 32 + (i + 1) * frame_size) by (nonlinear_arith)
            requires
                pos == 32 + i * frame_size,
        ;
        pos = pos + frame_size;
        i = i + 1;
    }
    has_commit
}

/// Physically validates a complete WAL/SHM pair before any SQLite connection
/// touches it: header magic and version, page size agreeing with the main
/// database, whole frames, two agreeing SHM header copies, the active frame
/// count, the salted checksum chain over every active frame, and at least one
/// commit frame. `database_prefix` holds the first bytes of the main file.
pub fn validate_wal_pair(wal: &[u8], shm: &[u8], database_prefix: &[u8]) -> (r: Result<(), DbError>)
    ensures
        r is Ok <==> wal_pair_valid(wal@, shm@, database_prefix@),
        r matches Err(e) ==> is_compat_error(
            e,
            spec_compatibility_error(
                DB_MIGRATION_LINEAGE_INCOMPATIBLE@,
                None,
                WAL_PHYSICAL_VALIDATION_FAILED@,
                None,
                None,
                Seq::empty(),
            ),
        ),
{
    if wal.len() < 32 || shm.len() < 136 || shm.len() % 32768 != 0 {
        return Err(sidecar_recovery_error(WAL_PHYSICAL_VALIDATION_FAILED));
    }
    let magic = be32_at(wal, 0);
    let checksum_big_endian = if magic == 0x377f_0682 {
        false
    } else if magic == 0x377f_0683 {
        true
    } else {
        return Err(sidecar_recovery_error(WAL_PHYSICAL_VALIDATION_FAILED));
    };
    if be32_at(wal, 4) != 3_007_000 {
        return Err(sidecar_recovery_error(WAL_PHYSICAL_VALIDATION_FAILED));
    }
    let encoded_page_size = be32_at(wal, 8);
    let page_size: usize = if encoded_page_size == 1 {
        65536
    } else {
        encoded_page_size as usize
    };
    if !is_valid_page_size(page_size) {
        return Err(sidecar_recovery_error(WAL_PHYSICAL_VALIDATION_FAILED));
    }
    if database_prefix.len() < 100 || !is_sqlite_magic(database_prefix) {
        return Err(sidecar_recovery_error(WAL_PHYSICAL_VALIDATION_FAILED));
    }
    let encoded_db_page = (database_prefix[16] as usize) * 256 + (database_prefix[17] as usize);
    let database_page_size: usize = if encoded_db_page == 1 {
        65536
    } else {
        encoded_db_page
    };
    assert(encoded_db_page == be16(database_prefix@, 16));
    if database_page_size != page_size {
        return Err(sidecar_recovery_error(WAL_PHYSICAL_VALIDATION_FAILED));
    }
    let frame_size: usize = 24 + page_size;
    if (wal.len() - 32) % frame_size != 0 || wal.len() == 32 {
        return Err(sidecar_recovery_error(WAL_PHYSICAL_VALIDATION_FAILED));
    }
    if !bytes_equal(shm, 0, shm, 48, 48) || le32_at(shm, 0) != 3_007_000 || shm[12] != 1 {
        return Err(sidecar_recovery_error(WAL_PHYSICAL_VALIDATION_FAILED));
    }
    let max_frame_word = le32_at(shm, 16);
    let max_frame = max_frame_word as usize;
    if max_frame == 0 {
        return Err(sidecar_recovery_error(WAL_PHYSICAL_VALIDATION_FAILED));
    }
    let product = match max_frame.checked_mul(frame_size) {
        Some(p) => p,
        None => {
            return Err(sidecar_recovery_error(WAL_PHYSICAL_VALIDATION_FAILED));
        },
    };
    let active_end = match (32usize).checked_add(product) {
        Some(e) => e,
        None => {
            return Err(sidecar_recovery_error(WAL_PHYSICAL_VALIDATION_FAILED));
        },
    };
    if active_end > wal.len() {
        return Err(sidecar_recovery_error(WAL_PHYSICAL_VALIDATION_FAILED));
    }
    let expected_header = (be32_at(wal, 24), be32_at(wal, 28));
    let header_checksum = checksum_range(wal, 0, 24, checksum_big_endian, (0, 0));
    assert(header_checksum == frame_chain(wal@, 24 + page_size as int, checksum_big_endian, 0)) by {
        reveal(frame_chain);
    }
    if header_checksum.0 != expected_header.0 || header_checksum.1 != expected_header.1 {
        return Err(sidecar_recovery_error(WAL_PHYSICAL_VALIDATION_FAILED));
    }
    let ok = check_active_frames(wal, frame_size, checksum_big_endian, header_checksum, max_frame);
    if !ok {
        return Err(sidecar_recovery_error(WAL_PHYSICAL_VALIDATION_FAILED));
    }
    Ok(())
}

// ---------------------------------------------------------------------------
// Schema text
// ---------------------------------------------------------------------------

/// Schema SQL as the catalog comparisons see it: whitespace removed and ASCII
/// letters lowered, so formatting never hides or fakes a difference.
pub fn normalize_schema_sql(sql: &str) -> (r: String)
    ensures
        r@ == spec_normalize_sql(sql@),
{
    let chars = chars_of(sql);
    let mut out = String::new();
    let mut i: usize = 0;
    while i < chars.len()
        invariant
            chars@ == sql@,
            i <= chars.len(),
            out@ == spec_normalize_sql(chars@.subrange(0, i as int)),
        decreases chars.len() - i,
    {
        let c = chars[i];
        assert(chars@.subrange(0, i + 1).drop_last() == chars@.subrange(0, i as int));
        if !is_whitespace(c) {
            push_char(&mut out, ascii_lower(c));
        }
        i = i + 1;
    }
    assert(chars@.subrange(0, chars.len() as int) == chars@);
    out
}

} // verus!
