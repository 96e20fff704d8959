//! The mounted NAS folder: where every sync object lives under the chosen
//! root, which names are safe path segments, how event files are found, and
//! what a no-replace write concludes when the target already exists. The
//! file operations themselves are the caller's.
use vstd::prelude::*;

use super::SyncError;
use crate::text::{
    chars_of, decimal_u64, ends_with, owned, push_char, push_str, spec_decimal, spec_digit, spec_ends_with,
    string_from_range,
};

verus! {

pub const ROOT_DIR: &'static str = "fanglv-caseboard-sync";

/// A NAS folder the user chose, as an absolute path.
#[derive(Debug)]
pub struct MountedFolder {
    pub selected_root: String,
}

#[derive(Debug)]
pub struct ProtocolDescriptor {
    pub protocol_version: u32,
    pub product: String,
    pub connector_type: String,
}

// ---------------------------------------------------------------------------
// Path segments
// ---------------------------------------------------------------------------

pub open spec fn segment_char(c: char) -> bool {
    ('0' <= c && c <= '9') || ('a' <= c && c <= 'z') || ('A' <= c && c <= 'Z') || c == '-' || c == '_'
}

/// A safe identifier inside a sync path: 1 to 128 ASCII letters, digits,
/// dashes or underscores (one byte each).
pub open spec fn valid_segment(v: Seq<char>) -> bool {
    0 < v.len() <= 128 && forall|i: int| 0 <= i < v.len() ==> #[trigger] segment_char(v[i])
}

pub fn validate_segment(value: &str) -> (r: Result<(), SyncError>)
    ensures
        r is Ok <==> valid_segment(value@),
        r matches Err(e) ==> e matches SyncError::InvalidNasPath(m) && m@ == "同步标识包含非法字符: "@ + value@,
{
    let chars = chars_of(value);
    let mut ok = chars.len() > 0 && chars.len() <= 128;
    let mut i: usize = 0;
    while i < chars.len() && ok
        invariant
            chars@ == value@,
            i <= chars@.len(),
            ok ==> 0 < chars@.len() <= 128,
            ok ==> forall|k: int| 0 <= k < i ==> #[trigger] segment_char(chars@[k]),
            !ok ==> !valid_segment(value@),
        decreases chars@.len() - i,
    {
        let c = chars[i];
        if !(('0' <= c && c <= '9') || ('a' <= c && c <= 'z') || ('A' <= c && c <= 'Z') || c == '-' || c == '_') {
            assert(!segment_char(chars@[i as int]));
            ok = false;
        }
        i = i + 1;
    }
    if !ok {
        let mut m = owned("同步标识包含非法字符: ");
        push_str(&mut m, value);
        return Err(SyncError::InvalidNasPath(m));
    }
    Ok(())
}

// ---------------------------------------------------------------------------
// Paths
// ---------------------------------------------------------------------------

pub open spec fn is_separator(c: char) -> bool {
    c == '/' || c == '\\'
}

/// `base` joined with a relative `part`.
pub open spec fn joined(base: Seq<char>, part: Seq<char>) -> Seq<char> {
    if base.len() > 0 && is_separator(base.last()) {
        base + part
    } else {
        base + seq!['/'] + part
    }
}

pub fn join(base: &str, part: &str) -> (r: String)
    ensures
        r@ == joined(base@, part@),
{
    let chars = chars_of(base);
    let mut r = owned(base);
    if !(chars.len() > 0 && (chars[chars.len() - 1] == '/' || chars[chars.len() - 1] == '\\')) {
        push_char(&mut r, '/');
    }
    push_str(&mut r, part);
    r
}

/// A sequence number as a 20-digit zero-padded decimal (`{:020}`).
pub open spec fn padded20(n: u64) -> Seq<char> {
    Seq::new((20 - spec_decimal(n as nat).len()) as nat, |i: int| '0') + spec_decimal(n as nat)
}

pub open spec fn pow10(k: nat) -> nat
    decreases k,
{
    if k == 0 {
        1
    } else {
        10 * pow10((k - 1) as nat)
    }
}

proof fn lemma_decimal_len(n: nat, k: nat)
    requires
        1 <= k,
        n < pow10(k),
    ensures
        1 <= spec_decimal(n).len() <= k,
    decreases n,
{
    if n >= 10 {
        assert(k >= 2) by {
            if k == 1 {
                assert(pow10(1) == 10) by {
                    assert(pow10(0) == 1);
                }
            }
        }
        assert(n / 10 < pow10((k - 1) as nat));
        lemma_decimal_len(n / 10, (k - 1) as nat);
    }
}

pub fn zero_padded(n: u64) -> (r: String)
    ensures
        r@ == padded20(n),
{
    let d = decimal_u64(n);
    proof {
        reveal_with_fuel(pow10, 21);
        assert(pow10(20) == 100_000_000_000_000_000_000);
        lemma_decimal_len(n as nat, 20);
    }
    let len = chars_of(d.as_str()).len();
    let mut r = String::new();
    let mut i: usize = 0;
    while i < 20 - len
        invariant
            len == spec_decimal(n as nat).len(),
            len <= 20,
            i <= 20 - len,
            r@ == Seq::new(i as nat, |k: int| '0'),
        decreases 20 - len - i,
    {
        push_char(&mut r, '0');
        assert(r@ =~= Seq::new((i + 1) as nat, |k: int| '0'));
        i = i + 1;
    }
    push_str(&mut r, d.as_str());
    r
}

impl MountedFolder {
    /// The view of a mounted folder's sync tree.
    pub open spec fn spec_sync_root(&self) -> Seq<char> {
        joined(self.selected_root@, ROOT_DIR@)
    }

    pub open spec fn spec_group_root(&self, group_id: Seq<char>) -> Seq<char> {
        joined(joined(self.spec_sync_root(), "groups"@), group_id)
    }

    /// The folder's sync tree.
    pub fn sync_root(&self) -> (r: String)
        ensures
            r@ == self.spec_sync_root(),
    {
        join(self.selected_root.as_str(), ROOT_DIR)
    }

    /// A group's directory; the group id must be a safe segment.
    pub fn group_root(&self, group_id: &str) -> (r: Result<String, SyncError>)
        ensures
            valid_segment(group_id@) <==> r is Ok,
            r matches Ok(p) ==> p@ == self.spec_group_root(group_id@),
            r matches Err(e) ==> e matches SyncError::InvalidNasPath(m) && m@ == "同步标识包含非法字符: "@ + group_id@,
    {
        match validate_segment(group_id) {
            Ok(()) => {},
            Err(e) => return Err(e),
        }
        let groups = join(self.sync_root().as_str(), "groups");
        Ok(join(groups.as_str(), group_id))
    }

    /// Where a device's manifest for `sequence` lives.
    pub fn manifest_path(&self, group_id: &str, device_id: &str, sequence: u64) -> (r: Result<String, SyncError>)
        ensures
            (valid_segment(device_id@) && valid_segment(group_id@)) <==> r is Ok,
            r matches Ok(p) ==> p@ == joined(
                joined(joined(self.spec_group_root(group_id@), "manifests"@), device_id@),
                padded20(sequence) + ".cbm"@,
            ),
            r matches Err(e) ==> e is InvalidNasPath,
    {
        match validate_segment(device_id) {
            Ok(()) => {},
            Err(e) => return Err(e),
        }
        let root = match self.group_root(group_id) {
            Ok(p) => p,
            Err(e) => return Err(e),
        };
        let dir = join(join(root.as_str(), "manifests").as_str(), device_id);
        let mut name = zero_padded(sequence);
        push_str(&mut name, ".cbm");
        Ok(join(dir.as_str(), name.as_str()))
    }

    /// Where a device's event for `sequence` lives.
    pub fn event_path(&self, group_id: &str, device_id: &str, sequence: u64) -> (r: Result<String, SyncError>)
        ensures
            (valid_segment(device_id@) && valid_segment(group_id@)) <==> r is Ok,
            r matches Ok(p) ==> p@ == joined(
                joined(joined(self.spec_group_root(group_id@), "events"@), device_id@),
                padded20(sequence) + ".cbe"@,
            ),
            r matches Err(e) ==> e is InvalidNasPath,
    {
        match validate_segment(device_id) {
            Ok(()) => {},
            Err(e) => return Err(e),
        }
        let root = match self.group_root(group_id) {
            Ok(p) => p,
            Err(e) => return Err(e),
        };
        let dir = join(join(root.as_str(), "events").as_str(), device_id);
        let mut name = zero_padded(sequence);
        push_str(&mut name, ".cbe");
        Ok(join(dir.as_str(), name.as_str()))
    }

    /// Where an invite file lives: `<invite>.<suffix>.json` in the group's
    /// invites.
    pub fn invite_path(&self, group_id: &str, invite_id: &str, suffix: &str) -> (r: Result<String, SyncError>)
        ensures
            (valid_segment(invite_id@) && valid_segment(suffix@) && valid_segment(group_id@)) <==> r is Ok,
            r matches Ok(p) ==> p@ == joined(
                joined(self.spec_group_root(group_id@), "invites"@),
                invite_id@ + "."@ + suffix@ + ".json"@,
            ),
            r matches Err(e) ==> e is InvalidNasPath,
    {
        match validate_segment(invite_id) {
            Ok(()) => {},
            Err(e) => return Err(e),
        }
        match validate_segment(suffix) {
            Ok(()) => {},
            Err(e) => return Err(e),
        }
        let root = match self.group_root(group_id) {
            Ok(p) => p,
            Err(e) => return Err(e),
        };
        let dir = join(root.as_str(), "invites");
        let mut name = owned(invite_id);
        push_str(&mut name, ".");
        push_str(&mut name, suffix);
        push_str(&mut name, ".json");
        Ok(join(dir.as_str(), name.as_str()))
    }

    /// Where a member's wrapped group key for `epoch` lives.
    pub fn member_envelope_path(&self, group_id: &str, device_id: &str, epoch: u32) -> (r: Result<String, SyncError>)
        ensures
            (valid_segment(device_id@) && valid_segment(group_id@)) <==> r is Ok,
            r matches Ok(p) ==> p@ == joined(
                joined(self.spec_group_root(group_id@), "members"@),
                device_id@ + ".epoch-"@ + spec_decimal(epoch as nat) + ".key.cbe"@,
            ),
            r matches Err(e) ==> e is InvalidNasPath,
    {
        match validate_segment(device_id) {
            Ok(()) => {},
            Err(e) => return Err(e),
        }
        let root = match self.group_root(group_id) {
            Ok(p) => p,
            Err(e) => return Err(e),
        };
        let dir = join(root.as_str(), "members");
        let mut name = owned(device_id);
        push_str(&mut name, ".epoch-");
        push_str(&mut name, decimal_u64(epoch as u64).as_str());
        push_str(&mut name, ".key.cbe");
        Ok(join(dir.as_str(), name.as_str()))
    }

    /// Where an encrypted snapshot lives.
    pub fn snapshot_path(&self, group_id: &str, snapshot_id: &str) -> (r: Result<String, SyncError>)
        ensures
            (valid_segment(snapshot_id@) && valid_segment(group_id@)) <==> r is Ok,
            r matches Ok(p) ==> p@ == joined(joined(self.spec_group_root(group_id@), "snapshots"@), snapshot_id@ + ".cbs"@),
            r matches Err(e) ==> e is InvalidNasPath,
    {
        match validate_segment(snapshot_id) {
            Ok(()) => {},
            Err(e) => return Err(e),
        }
        let root = match self.group_root(group_id) {
            Ok(p) => p,
            Err(e) => return Err(e),
        };
        let dir = join(root.as_str(), "snapshots");
        let mut name = owned(snapshot_id);
        push_str(&mut name, ".cbs");
        Ok(join(dir.as_str(), name.as_str()))
    }
}

/// A snapshot file name that may be removed: a `.cbs` name without any
/// separator.
pub fn check_snapshot_file_name(name: &str) -> (r: Result<(), SyncError>)
    ensures
        r is Ok <==> (spec_ends_with(name@, ".cbs"@) && !name@.contains('/') && !name@.contains('\\')),
        r matches Err(e) ==> e matches SyncError::InvalidNasPath(m) && m@ == "快照文件名非法"@,
{
    if !ends_with(name, ".cbs") || crate::text::contains_char(name, '/') || crate::text::contains_char(name, '\\') {
        return Err(SyncError::InvalidNasPath(owned("快照文件名非法")));
    }
    Ok(())
}

// ---------------------------------------------------------------------------
// No-replace writes
// ---------------------------------------------------------------------------

/// A no-replace write finding its target already there: the same bytes are
/// an idempotent success; different bytes must never be replaced.
pub fn existing_target_outcome(existing: &[u8], bytes: &[u8]) -> (r: Result<(), SyncError>)
    ensures
        r is Ok <==> existing@ == bytes@,
        r matches Err(e) ==> e matches SyncError::Integrity(m) && m@ == "同序列同步对象已存在但内容不一致"@,
{
    if existing.len() == bytes.len() {
        let mut i: usize = 0;
        while i < bytes.len()
            invariant
                existing@.len() == bytes@.len(),
                i <= bytes@.len(),
                forall|k: int| 0 <= k < i ==> existing@[k] == bytes@[k],
            decreases bytes@.len() - i,
        {
            if existing[i] != bytes[i] {
                return Err(SyncError::Integrity(owned("同序列同步对象已存在但内容不一致")));
            }
            i = i + 1;
        }
        assert(existing@ =~= bytes@);
        return Ok(());
    }
    Err(SyncError::Integrity(owned("同序列同步对象已存在但内容不一致")))
}

/// A publish that failed: when the target now exists another writer won the
/// race, and only identical bytes count as success; otherwise the publish
/// error stands.
pub fn lost_publish_outcome(winner: Option<&[u8]>, bytes: &[u8], publish_error: SyncError) -> (r: Result<(), SyncError>)
    ensures
        match winner {
            Some(w) => (r is Ok <==> w@ == bytes@) && (r matches Err(e) ==> e matches SyncError::Integrity(m)
                && m@ == "同序列同步对象已存在但内容不一致"@),
            None => r == Err::<(), SyncError>(publish_error),
        },
{
    match winner {
        Some(w) => existing_target_outcome(w, bytes),
        None => Err(publish_error),
    }
}

// ---------------------------------------------------------------------------
// Event listings
// ---------------------------------------------------------------------------

pub open spec fn is_digit(c: char) -> bool {
    '0' <= c && c <= '9'
}

/// The value of a string of decimal digits.
pub open spec fn digits_value(s: Seq<char>) -> nat
    decreases s.len(),
{
    if s.len() == 0 {
        0
    } else {
        digits_value(s.drop_last()) * 10 + (s.last() as int - '0' as int) as nat
    }
}

pub open spec fn all_digits(s: Seq<char>) -> bool {
    forall|i: int| 0 <= i < s.len() ==> #[trigger] is_digit(s[i])
}

/// The digits after an optional leading `+`.
pub open spec fn unsigned_digits(s: Seq<char>) -> Seq<char> {
    if s.len() > 0 && s[0] == '+' {
        s.subrange(1, s.len() as int)
    } else {
        s
    }
}

/// `u64::from_str`: an optional `+` then at least one digit, within range.
pub open spec fn parse_u64(s: Seq<char>) -> Option<u64> {
    let digits = unsigned_digits(s);
    if digits.len() > 0 && all_digits(digits) && digits_value(digits) <= u64::MAX {
        Some(digits_value(digits) as u64)
    } else {
        None
    }
}

pub fn parse_decimal_u64(s: &str) -> (r: Option<u64>)
    ensures
        r == parse_u64(s@),
{
    let chars = chars_of(s);
    let start: usize = if chars.len() > 0 && chars[0] == '+' {
        1
    } else {
        0
    };
    let ghost digits = chars@.subrange(start as int, chars@.len() as int);
    assert(digits == unsigned_digits(s@));
    if start >= chars.len() {
        return None;
    }
    let mut value: u64 = 0;
    let mut i: usize = start;
    while i < chars.len()
        invariant
            chars@ == s@,
            start <= i <= chars@.len(),
            digits == chars@.subrange(start as int, chars@.len() as int),
            digits == unsigned_digits(s@),
            forall|k: int| start <= k < i ==> #[trigger] is_digit(chars@[k]),
            value == digits_value(chars@.subrange(start as int, i as int)),
        decreases chars@.len() - i,
    {
        let c = chars[i];
        if !('0' <= c && c <= '9') {
            assert(!is_digit(digits[i - start]));
            assert(!all_digits(digits));
            return None;
        }
        let d = (c as u32 - '0' as u32) as u64;
        assert(chars@.subrange(start as int, i + 1).drop_last() == chars@.subrange(start as int, i as int));
        if value > (u64::MAX - d) / 10 {
            proof {
                assert(digits.subrange(0, i - start + 1) == chars@.subrange(start as int, i + 1));
                assert(value * 10 + d > u64::MAX) by (nonlinear_arith)
                    requires
                        value > (u64::MAX - d) / 10,
                        d <= 9,
                ;
                lemma_digits_value_grows(digits, (i - start + 1) as int);
            }
            return None;
        }
        value = value * 10 + d;
        i = i + 1;
    }
    assert(chars@.subrange(start as int, i as int) == digits);
    Some(value)
}

proof fn lemma_digits_value_grows(s: Seq<char>, n: int)
    requires
        0 <= n <= s.len(),
    ensures
        all_digits(s) ==> digits_value(s) >= digits_value(
            s.subrange(0, n),
        ),
    decreases s.len() - n,
{
    if n < s.len() {
        lemma_digits_value_grows(s, n + 1);
        assert(s.subrange(0, n + 1).drop_last() == s.subrange(0, n));
    } else {
        assert(s.subrange(0, n) == s);
    }
}

/// One file of a device's event directory.
#[derive(Debug)]
pub struct DirEntry {
    pub name: String,
    pub is_file: bool,
}

/// An event file: a regular file named `<sequence>.cbe`.
pub open spec fn event_file(e: DirEntry) -> bool {
    e.is_file && spec_ends_with(e.name@, ".cbe"@) && e.name@.len() > 4
}

/// The name without its `.cbe` extension.
pub open spec fn stem(name: Seq<char>) -> Seq<char> {
    name.subrange(0, name.len() - 4)
}

pub open spec fn sorted_events(v: Seq<(u64, String)>) -> bool {
    forall|a: int, b: int| 0 <= a < b < v.len() ==> (#[trigger] v[a]).0 <= (#[trigger] v[b]).0
}

/// Entry `j` is an event file after `after` whose stem parses.
pub open spec fn listed_entry(entries: Seq<DirEntry>, j: int, after: u64) -> bool {
    &&& event_file(entries[j])
    &&& parse_u64(stem(entries[j].name@)) matches Some(q) && q > after
}

/// `x` stands for entry `j`.
pub open spec fn stands_for(x: (u64, String), entries: Seq<DirEntry>, j: int) -> bool {
    parse_u64(stem(entries[j].name@)) == Some(x.0) && entries[j].name@ == x.1@
}

/// `x` comes from one of the first `n` entries.
pub open spec fn from_some_entry(x: (u64, String), entries: Seq<DirEntry>, n: int, after: u64) -> bool {
    exists|j: int| 0 <= j < n && listed_entry(entries, j, after) && #[trigger] stands_for(x, entries, j)
}

/// Every listed event comes from one of the first `n` entries.
pub open spec fn from_entries(v: Seq<(u64, String)>, entries: Seq<DirEntry>, n: int, after: u64) -> bool {
    forall|k: int| 0 <= k < v.len() ==> #[trigger] from_some_entry(v[k], entries, n, after)
}

/// Entry `j` is listed in `v`.
pub open spec fn listed_in(v: Seq<(u64, String)>, entries: Seq<DirEntry>, j: int) -> bool {
    exists|k: int| 0 <= k < v.len() && #[trigger] stands_for(v[k], entries, j)
}

/// Every qualifying one of the first `n` entries is listed.
pub open spec fn covers(v: Seq<(u64, String)>, entries: Seq<DirEntry>, n: int, after: u64) -> bool {
    forall|j: int| 0 <= j < n && #[trigger] listed_entry(entries, j, after) ==> listed_in(v, entries, j)
}

/// Inserts an event after every event with a sequence not above it.
fn insert_event(out: &mut Vec<(u64, String)>, x: (u64, String))
    requires
        sorted_events(old(out)@),
    ensures
        sorted_events(final(out)@),
        exists|p: int| 0 <= p <= old(out)@.len() && final(out)@ == old(out)@.insert(p, x),
{
    let ghost before = out@;
    let mut p: usize = out.len();
    while p > 0 && out[p - 1].0 > x.0
        invariant
            p <= out@.len(),
            out@ == before,
            forall|k: int| p <= k < out@.len() ==> #[trigger] out@[k].0 > x.0,
        decreases p,
    {
        p = p - 1;
    }
    let ghost xv = x;
    out.insert(p, x);
    let ghost now = out@;
    assert(now == before.insert(p as int, xv));
    assert forall|a: int, b: int| 0 <= a < b < now.len() implies (#[trigger] now[a]).0 <= (#[trigger] now[b]).0 by {
        if b < p {
            assert(now[a] == before[a] && now[b] == before[b]);
        } else if b == p {
            if a < p - 1 {
                assert(before[a].0 <= before[p - 1].0);
            }
        } else if a < p {
            assert(now[a] == before[a] && now[b] == before[b - 1]);
        } else if a == p {
            assert(now[b] == before[b - 1]);
        } else {
            assert(now[a] == before[a - 1] && now[b] == before[b - 1]);
        }
    }
}

proof fn lemma_listing_step(
    before: Seq<(u64, String)>,
    after_v: Seq<(u64, String)>,
    entries: Seq<DirEntry>,
    i: int,
    after: u64,
    p: int,
    x: (u64, String),
)
    requires
        0 <= i < entries.len(),
        0 <= p <= before.len(),
        after_v == before.insert(p, x),
        from_entries(before, entries, i, after),
        covers(before, entries, i, after),
        listed_entry(entries, i, after),
        stands_for(x, entries, i),
    ensures
        from_entries(after_v, entries, i + 1, after),
        covers(after_v, entries, i + 1, after),
{
    assert forall|k: int| 0 <= k < after_v.len() implies #[trigger] from_some_entry(after_v[k], entries, i + 1, after) by {
        if k < p {
            assert(after_v[k] == before[k]);
            assert(from_some_entry(before[k], entries, i, after));
        } else if k > p {
            assert(after_v[k] == before[k - 1]);
            assert(from_some_entry(before[k - 1], entries, i, after));
        } else {
            assert(stands_for(after_v[k], entries, i));
        }
    }
    assert forall|j: int| 0 <= j < i + 1 && #[trigger] listed_entry(entries, j, after) implies listed_in(after_v, entries, j) by {
        if j < i {
            assert(listed_in(before, entries, j));
            let k = choose|k: int| 0 <= k < before.len() && #[trigger] stands_for(before[k], entries, j);
            if k < p {
                assert(after_v[k] == before[k]);
                assert(stands_for(after_v[k], entries, j));
            } else {
                assert(after_v[k + 1] == before[k]);
                assert(stands_for(after_v[k + 1], entries, j));
            }
        } else {
            assert(stands_for(after_v[p], entries, j));
        }
    }
}

proof fn lemma_listing_skip(v: Seq<(u64, String)>, entries: Seq<DirEntry>, i: int, after: u64)
    requires
        0 <= i < entries.len(),
        from_entries(v, entries, i, after),
        covers(v, entries, i, after),
        !listed_entry(entries, i, after),
    ensures
        from_entries(v, entries, i + 1, after),
        covers(v, entries, i + 1, after),
{
    assert forall|k: int| 0 <= k < v.len() implies #[trigger] from_some_entry(v[k], entries, i + 1, after) by {
        assert(from_some_entry(v[k], entries, i, after));
    }
}

/// Lists the events of a device after `after_sequence`, in sequence order:
/// exactly the regular `<sequence>.cbe` files above it. Any `.cbe` file
/// whose stem is not a sequence number is an integrity failure.
pub fn list_events_after(entries: &Vec<DirEntry>, after_sequence: u64) -> (r: Result<Vec<(u64, String)>, SyncError>)
    ensures
        (forall|i: int| 0 <= i < entries@.len() && event_file(#[trigger] entries@[i]) ==> parse_u64(stem(entries@[i].name@)) is Some)
            <==> r is Ok,
        r matches Ok(v) ==> sorted_events(v@) && from_entries(v@, entries@, entries@.len() as int, after_sequence) && covers(
            v@,
            entries@,
            entries@.len() as int,
            after_sequence,
        ),
{
    let mut out: Vec<(u64, String)> = Vec::new();
    let mut i: usize = 0;
    while i < entries.len()
        invariant
            i <= entries@.len(),
            forall|j: int| 0 <= j < i && event_file(#[trigger] entries@[j]) ==> parse_u64(stem(entries@[j].name@)) is Some,
            sorted_events(out@),
            from_entries(out@, entries@, i as int, after_sequence),
            covers(out@, entries@, i as int, after_sequence),
        decreases entries@.len() - i,
    {
        let e = &entries[i];
        let chars = chars_of(e.name.as_str());
        let is_event = e.is_file && ends_with(e.name.as_str(), ".cbe") && chars.len() > 4;
        assert(is_event == event_file(entries@[i as int]));
        if is_event {
            let stem_text = string_from_range(&chars, 0, chars.len() - 4);
            match parse_decimal_u64(stem_text.as_str()) {
                None => {
                    let mut m = owned("事件文件名非法: ");
                    push_str(&mut m, e.name.as_str());
                    return Err(SyncError::Integrity(m));
                },
                Some(seq) => {
                    if seq > after_sequence {
                        let ghost before = out@;
                        let x = (seq, e.name.clone());
                        assert(stands_for(x, entries@, i as int));
                        insert_event(&mut out, x);
                        proof {
                            let p = choose|p: int| 0 <= p <= before.len() && out@ == before.insert(p, x);
                            lemma_listing_step(before, out@, entries@, i as int, after_sequence, p, x);
                        }
                    } else {
                        proof {
                            lemma_listing_skip(out@, entries@, i as int, after_sequence);
                        }
                    }
                },
            }
        } else {
            proof {
                lemma_listing_skip(out@, entries@, i as int, after_sequence);
            }
        }
        i = i + 1;
    }
    Ok(out)
}

} // verus!
