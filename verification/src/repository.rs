//! The personal repository: packages that other devices write into a shared
//! folder, the checks a package must pass, what merging one item does, and
//! the status and summaries shown to the user. Reading and writing the
//! folder and the database happen in the application around these rules.
use vstd::prelude::*;

use crate::records::LATEST_SCHEMA_VERSION;
use crate::schedule::opt_view;
use crate::text::{owned, str_eq, trim, trim_seq};
use crate::domain::{lex_le, lex_le_exec};
use crate::error::{is_validation, validation, AppResult};

verus! {

/// The format name every package declares.
pub const PACKAGE_FORMAT: &'static str = "shanji-local-repository";

/// The package layout version this build writes and reads.
pub const PACKAGE_VERSION: u32 = 1;

/// The file extension of packages.
pub const PACKAGE_EXTENSION: &'static str = "sjpack";

/// The folder created inside the chosen directory.
pub const REPOSITORY_DIRECTORY: &'static str = "shanji-repository";

/// The largest package that is read, in bytes.
pub const MAX_PACKAGE_BYTES: u64 = 268435456;

/// What merging another device's packages found, per device.
#[derive(Debug, Clone)]
pub struct RepositorySourcePreview {
    pub source_instance_id: String,
    pub exported_at: String,
    pub item_count: u64,
    pub new_items: u64,
    pub unchanged_items: u64,
    pub conflicts: u64,
    pub tombstones: u64,
}

/// What merging all other devices' packages would do.
#[derive(Debug, Clone)]
pub struct RepositoryPreview {
    pub sources: Vec<RepositorySourcePreview>,
    pub new_items: u64,
    pub unchanged_items: u64,
    pub conflicts: u64,
    pub tombstones: u64,
    pub settings_need_review: bool,
}

/// The repository as the settings page shows it.
#[derive(Debug, Clone)]
pub struct RepositoryStatus {
    pub configured: bool,
    pub path: Option<String>,
    pub available: bool,
    pub local_item_count: u64,
    pub package_count: u64,
    pub pending_source_count: u64,
    pub conflict_count: u64,
    pub last_synced_at: Option<String>,
    pub last_package_at: Option<String>,
    pub snapshot_ready: bool,
    pub last_error_code: Option<String>,
    pub message: String,
}

/// What a merge did.
#[derive(Debug, Clone)]
pub struct RepositorySyncResult {
    pub imported_items: u64,
    pub unchanged_items: u64,
    pub conflicts: u64,
    pub tombstones_applied: u64,
    pub package_path: Option<String>,
    pub package_written: bool,
    pub synced_at: String,
}

// ---------------------------------------------------------------------------
// Package checks
// ---------------------------------------------------------------------------
/// The tables a package may carry.
pub open spec fn snapshot_table_spec(name: Seq<char>) -> bool {
    ||| name == "app_settings"@
    ||| name == "categories"@
    ||| name == "tags"@
    ||| name == "items"@
    ||| name == "item_tags"@
    ||| name == "reminder_events"@
    ||| name == "classification_reminder_events"@
    ||| name == "item_events"@
    ||| name == "drafts"@
    ||| name == "event_kind_defaults"@
    ||| name == "item_tombstones"@
    ||| name == "email_delivery_rules"@
    ||| name == "timeline_view_preferences"@
}

/// Whether a package may carry the table `name`.
pub fn snapshot_table(name: &str) -> (r: bool)
    ensures
        r == snapshot_table_spec(name@),
{
    str_eq(name, "app_settings") || str_eq(name, "categories") || str_eq(name, "tags") || str_eq(name, "items")
        || str_eq(name, "item_tags") || str_eq(name, "reminder_events") || str_eq(
        name,
        "classification_reminder_events",
    ) || str_eq(name, "item_events") || str_eq(name, "drafts") || str_eq(name, "event_kind_defaults") || str_eq(
        name,
        "item_tombstones",
    ) || str_eq(name, "email_delivery_rules") || str_eq(name, "timeline_view_preferences")
}

/// The message for a package file that is empty or too large.
pub const UNREADABLE_PACKAGE_MESSAGE: &'static str = "个人仓库中有无法读取的数据包，归并已停止，原文件保持不变";

/// The message for a package that is not valid JSON of the expected shape.
pub const MALFORMED_PACKAGE_MESSAGE: &'static str = "个人仓库中的数据包格式无效，归并已停止";

/// The message for a package of another format, version or schema.
pub const INCOMPATIBLE_PACKAGE_MESSAGE: &'static str = "个人仓库中的数据包版本暂不兼容，归并已停止";

/// The message for a package whose checksum does not match.
pub const TAMPERED_PACKAGE_MESSAGE: &'static str = "个人仓库中的数据包未通过完整性检查，归并已停止";

/// A package file of this size is read at all.
pub fn package_size_ok(len: u64) -> (r: AppResult<()>)
    ensures
        (len == 0 || len > MAX_PACKAGE_BYTES) ==> (r matches Err(e) && is_validation(e, UNREADABLE_PACKAGE_MESSAGE@)),
        !(len == 0 || len > MAX_PACKAGE_BYTES) ==> r is Ok,
{
    if len == 0 || len > MAX_PACKAGE_BYTES {
        Err(validation(UNREADABLE_PACKAGE_MESSAGE))
    } else {
        Ok(())
    }
}

/// What a package declares about itself, as read from its file.
#[derive(Debug, Clone)]
pub struct PackageHeader {
    pub format: String,
    pub package_version: u32,
    pub schema_version: i64,
    pub source_instance_id: String,
    pub exported_at: String,
    pub table_names: Vec<String>,
    pub checksum_sha256: String,
}

/// Every table the package names is one a package may carry.
pub open spec fn tables_known(names: Seq<String>) -> bool {
    forall|i: int| 0 <= i < names.len() ==> snapshot_table_spec(#[trigger] names[i]@)
}

/// A package this build accepts: its format and layout version are this
/// build's, its schema is not newer, it names its source, and it carries only
/// known tables.
pub open spec fn package_compatible(h: PackageHeader) -> bool {
    &&& h.format@ == PACKAGE_FORMAT@
    &&& h.package_version == PACKAGE_VERSION
    &&& h.schema_version <= LATEST_SCHEMA_VERSION
    &&& trim_seq(h.source_instance_id@).len() > 0
    &&& tables_known(h.table_names@)
}

/// The checksum of a package's payload, or of one stored row, given its
/// serialized bytes: the SHA-256 digest in lower-case hexadecimal.
pub fn package_checksum(bytes: &[u8]) -> (r: String)
    ensures
        r@ == crate::email_rules::hex_spec(crate::email_rules::sha256_of(bytes@)),
{
    let digest = crate::email_rules::sha256(bytes);
    crate::email_rules::hex_encode(digest.as_slice())
}

/// Checks a package read from the repository: compatibility first, then that
/// the checksum of `payload`, its payload's serialized bytes as read, is the
/// one it declares.
pub fn check_package(header: &PackageHeader, payload: &[u8]) -> (r: AppResult<()>)
    ensures
        !package_compatible(*header) ==> (r matches Err(e) && is_validation(e, INCOMPATIBLE_PACKAGE_MESSAGE@)),
        package_compatible(*header) && crate::email_rules::hex_spec(crate::email_rules::sha256_of(payload@))
            != header.checksum_sha256@ ==> (r matches Err(e) && is_validation(e, TAMPERED_PACKAGE_MESSAGE@)),
        package_compatible(*header) && crate::email_rules::hex_spec(crate::email_rules::sha256_of(payload@))
            == header.checksum_sha256@ ==> r is Ok,
{
    let mut known = true;
    let mut i: usize = 0;
    while i < header.table_names.len()
        invariant
            i <= header.table_names@.len(),
            known == forall|k: int| 0 <= k < i ==> snapshot_table_spec(#[trigger] header.table_names@[k]@),
        decreases header.table_names@.len() - i,
    {
        if !snapshot_table(header.table_names[i].as_str()) {
            known = false;
        }
        i = i + 1;
    }
    if !str_eq(header.format.as_str(), PACKAGE_FORMAT) || header.package_version != PACKAGE_VERSION
        || header.schema_version > LATEST_SCHEMA_VERSION || trim(header.source_instance_id.as_str()).as_str().is_empty()
        || !known {
        return Err(validation(INCOMPATIBLE_PACKAGE_MESSAGE));
    }
    let computed_checksum = package_checksum(payload);
    if !str_eq(computed_checksum.as_str(), header.checksum_sha256.as_str()) {
        return Err(validation(TAMPERED_PACKAGE_MESSAGE));
    }
    Ok(())
}

// ---------------------------------------------------------------------------
// The latest package of each device
// ---------------------------------------------------------------------------
/// `a` was exported strictly later than `b` (export times compare as text).
pub open spec fn exported_later(a: Seq<char>, b: Seq<char>) -> bool {
    !lex_le(a, b)
}

/// The package at `chosen` comes from the same source as the one at `m` and
/// was not exported earlier.
pub open spec fn dominates(headers: Seq<PackageHeader>, chosen: usize, m: int) -> bool {
    &&& headers[chosen as int].source_instance_id@ == headers[m].source_instance_id@
    &&& !exported_later(headers[m].exported_at@, headers[chosen as int].exported_at@)
}

/// Some chosen package dominates the one at `m`.
pub open spec fn covered(headers: Seq<PackageHeader>, chosen: Seq<usize>, m: int) -> bool {
    exists|q: int| 0 <= q < chosen.len() && #[trigger] dominates(headers, chosen[q], m)
}

/// The chosen packages come from distinct sources.
pub open spec fn distinct_sources(headers: Seq<PackageHeader>, chosen: Seq<usize>) -> bool {
    forall|i: int, j: int|
        0 <= i < j < chosen.len() ==> headers[chosen[i] as int].source_instance_id@
            != headers[chosen[j] as int].source_instance_id@
}

/// The chosen packages run newest first.
pub open spec fn newest_first_packages(headers: Seq<PackageHeader>, chosen: Seq<usize>) -> bool {
    forall|i: int, j: int|
        0 <= i < j < chosen.len() ==> !exported_later(
            headers[chosen[j] as int].exported_at@,
            headers[chosen[i] as int].exported_at@,
        )
}

/// Of the packages, the indices of the latest one of each source: one per
/// source, none later from the same source, newest first.
pub open spec fn latest_choice(headers: Seq<PackageHeader>, chosen: Seq<usize>) -> bool {
    &&& forall|i: int| 0 <= i < chosen.len() ==> (#[trigger] chosen[i]) < headers.len()
    &&& distinct_sources(headers, chosen)
    &&& forall|m: int| 0 <= m < headers.len() ==> #[trigger] covered(headers, chosen, m)
    &&& newest_first_packages(headers, chosen)
}

fn pick_latest(headers: &Vec<PackageHeader>) -> (r: Vec<usize>)
    ensures
        forall|i: int| 0 <= i < r@.len() ==> (#[trigger] r@[i]) < headers@.len(),
        distinct_sources(headers@, r@),
        forall|m: int| 0 <= m < headers@.len() ==> #[trigger] covered(headers@, r@, m),
{
    let mut best: Vec<usize> = Vec::new();
    let mut k: usize = 0;
    while k < headers.len()
        invariant
            k <= headers@.len(),
            forall|i: int| 0 <= i < best@.len() ==> (#[trigger] best@[i]) < k,
            distinct_sources(headers@, best@),
            forall|m: int| 0 <= m < k ==> #[trigger] covered(headers@, best@, m),
        decreases headers@.len() - k,
    {
        let mut i: usize = 0;
        while i < best.len()
            invariant
                i <= best@.len(),
                k < headers@.len(),
                forall|q: int| 0 <= q < best@.len() ==> (#[trigger] best@[q]) < k,
                forall|q: int|
                    0 <= q < i ==> headers@[best@[q] as int].source_instance_id@ != headers@[k as int].source_instance_id@,
            ensures
                i <= best@.len(),
                forall|q: int|
                    0 <= q < i ==> headers@[best@[q] as int].source_instance_id@ != headers@[k as int].source_instance_id@,
                i < best@.len() ==> headers@[best@[i as int] as int].source_instance_id@ == headers@[k as int].source_instance_id@,
            decreases best@.len() - i,
        {
            if str_eq(headers[best[i]].source_instance_id.as_str(), headers[k].source_instance_id.as_str()) {
                break;
            }
            i = i + 1;
        }
        let ghost before = best@;
        proof {
            crate::domain::lemma_lex_total(headers@[k as int].exported_at@, headers@[k as int].exported_at@);
        }
        if i < best.len() {
            let current = best[i];
            let a = crate::text::chars_of(headers[k].exported_at.as_str());
            let b = crate::text::chars_of(headers[current].exported_at.as_str());
            if !lex_le_exec(&a, &b) {
                best.set(i, k);
                proof {
                    let hk = headers@[k as int].exported_at@;
                    let hc = headers@[current as int].exported_at@;
                    crate::domain::lemma_lex_total(hk, hc);
                    assert forall|m: int| 0 <= m < k + 1 implies #[trigger] covered(headers@, best@, m) by {
                        if m == k {
                            assert(dominates(headers@, best@[i as int], m));
                        } else {
                            assert(covered(headers@, before, m));
                            let q = choose|q: int| 0 <= q < before.len() && #[trigger] dominates(headers@, before[q], m);
                            if q == i {
                                crate::domain::lemma_lex_trans(headers@[m].exported_at@, hc, hk);
                                assert(dominates(headers@, best@[i as int], m));
                            } else {
                                assert(dominates(headers@, best@[q], m));
                            }
                        }
                    }
                    assert forall|x: int, y: int| 0 <= x < y < best@.len() implies headers@[best@[x] as int].source_instance_id@
                        != headers@[best@[y] as int].source_instance_id@ by {
                        assert(headers@[before[i as int] as int].source_instance_id@ == headers@[k as int].source_instance_id@);
                    }
                }
            } else {
                proof {
                    assert forall|m: int| 0 <= m < k + 1 implies #[trigger] covered(headers@, best@, m) by {
                        if m == k {
                            assert(dominates(headers@, best@[i as int], m));
                        }
                    }
                }
            }
        } else {
            best.push(k);
            proof {
                assert forall|m: int| 0 <= m < k + 1 implies #[trigger] covered(headers@, best@, m) by {
                    if m == k {
                        assert(dominates(headers@, best@[before.len() as int], m));
                    } else {
                        assert(covered(headers@, before, m));
                        let q = choose|q: int| 0 <= q < before.len() && #[trigger] dominates(headers@, before[q], m);
                        assert(dominates(headers@, best@[q], m));
                    }
                }
            }
        }
        k = k + 1;
    }
    best
}

fn sort_newest_first(headers: &Vec<PackageHeader>, chosen: &Vec<usize>) -> (r: Vec<usize>)
    requires
        forall|i: int| 0 <= i < chosen@.len() ==> (#[trigger] chosen@[i]) < headers@.len(),
        distinct_sources(headers@, chosen@),
    ensures
        forall|i: int| 0 <= i < r@.len() ==> chosen@.contains(#[trigger] r@[i]),
        forall|q: int| 0 <= q < chosen@.len() ==> r@.contains(#[trigger] chosen@[q]),
        distinct_sources(headers@, r@),
        newest_first_packages(headers@, r@),
{
    let mut sorted: Vec<usize> = Vec::new();
    let mut n: usize = 0;
    while n < chosen.len()
        invariant
            n <= chosen@.len(),
            forall|i: int| 0 <= i < chosen@.len() ==> (#[trigger] chosen@[i]) < headers@.len(),
            distinct_sources(headers@, chosen@),
            forall|i: int| 0 <= i < sorted@.len() ==> chosen@.subrange(0, n as int).contains(#[trigger] sorted@[i]),
            forall|q: int| 0 <= q < n ==> sorted@.contains(#[trigger] chosen@[q]),
            distinct_sources(headers@, sorted@),
            newest_first_packages(headers@, sorted@),
        decreases chosen@.len() - n,
    {
        let x = chosen[n];
        let xs = crate::text::chars_of(headers[x].exported_at.as_str());
        let mut p: usize = 0;
        while p < sorted.len()
            invariant
                p <= sorted@.len(),
                n < chosen@.len(),
                x == chosen@[n as int],
                x < headers@.len(),
                xs@ == headers@[x as int].exported_at@,
                forall|i: int| 0 <= i < chosen@.len() ==> (#[trigger] chosen@[i]) < headers@.len(),
                forall|i: int| 0 <= i < sorted@.len() ==> chosen@.subrange(0, n as int).contains(#[trigger] sorted@[i]),
                forall|q: int| 0 <= q < p ==> !exported_later(headers@[x as int].exported_at@, headers@[sorted@[q] as int].exported_at@),
            ensures
                p <= sorted@.len(),
                forall|q: int| 0 <= q < p ==> !exported_later(headers@[x as int].exported_at@, headers@[sorted@[q] as int].exported_at@),
                p < sorted@.len() ==> exported_later(headers@[x as int].exported_at@, headers@[sorted@[p as int] as int].exported_at@),
            decreases sorted@.len() - p,
        {
            proof {
                assert(chosen@.subrange(0, n as int).contains(sorted@[p as int]));
                let k = choose|k: int| 0 <= k < n && chosen@.subrange(0, n as int)[k] == sorted@[p as int];
                assert(chosen@[k] == sorted@[p as int]);
            }
            let here = crate::text::chars_of(headers[sorted[p]].exported_at.as_str());
            if !lex_le_exec(&xs, &here) {
                break;
            }
            p = p + 1;
        }
        let ghost before = sorted@;
        let ghost prefix = chosen@.subrange(0, n as int);
        let ghost next_prefix = chosen@.subrange(0, n as int + 1);
        sorted.insert(p, x);
        proof {
            assert(sorted@ =~= before.subrange(0, p as int).push(x) + before.subrange(p as int, before.len() as int));
            assert(next_prefix =~= prefix.push(x));
            assert forall|i: int| 0 <= i < sorted@.len() implies next_prefix.contains(#[trigger] sorted@[i]) by {
                if i == p {
                    assert(next_prefix[n as int] == x);
                } else {
                    let b = if i < p { i } else { i - 1 };
                    assert(sorted@[i] == before[b]);
                    assert(prefix.contains(before[b]));
                    let k = choose|k: int| 0 <= k < prefix.len() && prefix[k] == before[b];
                    assert(next_prefix[k] == before[b]);
                }
            }
            assert forall|q: int| 0 <= q < n + 1 implies sorted@.contains(#[trigger] chosen@[q]) by {
                if q == n {
                    assert(sorted@[p as int] == x);
                } else {
                    assert(before.contains(chosen@[q]));
                    let i = choose|i: int| 0 <= i < before.len() && before[i] == chosen@[q];
                    if i < p {
                        assert(sorted@[i] == chosen@[q]);
                    } else {
                        assert(sorted@[i + 1] == chosen@[q]);
                    }
                }
            }
            assert forall|i: int, j: int| 0 <= i < j < sorted@.len() implies headers@[sorted@[i] as int].source_instance_id@
                != headers@[sorted@[j] as int].source_instance_id@ by {
                if i == p || j == p {
                    let other = if i == p { j } else { i };
                    let o = if other < p { before[other] } else { before[other - 1] };
                    assert(sorted@[other] == o);
                    assert(prefix.contains(o));
                    let k = choose|k: int| 0 <= k < prefix.len() && prefix[k] == o;
                    assert(chosen@[k] == o);
                    assert(headers@[chosen@[k] as int].source_instance_id@ != headers@[chosen@[n as int] as int].source_instance_id@);
                } else {
                    let a = if i < p { i } else { i - 1 };
                    let b = if j < p { j } else { j - 1 };
                    assert(sorted@[i] == before[a] && sorted@[j] == before[b]);
                }
            }
            assert forall|i: int, j: int| 0 <= i < j < sorted@.len() implies !exported_later(
                headers@[sorted@[j] as int].exported_at@,
                headers@[sorted@[i] as int].exported_at@,
            ) by {
                let hx = headers@[x as int].exported_at@;
                if j < p {
                    assert(sorted@[i] == before[i] && sorted@[j] == before[j]);
                } else if j == p {
                    assert(sorted@[i] == before[i]);
                } else if i == p {
                    assert(sorted@[j] == before[j - 1]);
                    let hj = headers@[before[j - 1] as int].exported_at@;
                    let hp = headers@[before[p as int] as int].exported_at@;
                    if j - 1 > p {
                        assert(!exported_later(
                            headers@[before[j - 1] as int].exported_at@,
                            headers@[before[p as int] as int].exported_at@,
                        ));
                        crate::domain::lemma_lex_total(hx, hp);
                        crate::domain::lemma_lex_trans(hj, hp, hx);
                    } else {
                        crate::domain::lemma_lex_total(hx, hj);
                    }
                } else if i < p {
                    assert(sorted@[i] == before[i] && sorted@[j] == before[j - 1]);
                } else {
                    assert(sorted@[i] == before[i - 1] && sorted@[j] == before[j - 1]);
                }
            }
        }
        n = n + 1;
    }
    proof {
        assert(chosen@.subrange(0, n as int) =~= chosen@);
    }
    sorted
}

/// Chooses the latest package of each source, newest first.
pub fn latest_packages(headers: &Vec<PackageHeader>) -> (r: Vec<usize>)
    ensures
        latest_choice(headers@, r@),
{
    let best = pick_latest(headers);
    let sorted = sort_newest_first(headers, &best);
    proof {
        assert forall|i: int| 0 <= i < sorted@.len() implies (#[trigger] sorted@[i]) < headers@.len() by {
            assert(best@.contains(sorted@[i]));
        }
        assert forall|m: int| 0 <= m < headers@.len() implies #[trigger] covered(headers@, sorted@, m) by {
            assert(covered(headers@, best@, m));
            let q = choose|q: int| 0 <= q < best@.len() && #[trigger] dominates(headers@, best@[q], m);
            assert(sorted@.contains(best@[q]));
            let i = choose|i: int| 0 <= i < sorted@.len() && sorted@[i] == best@[q];
            assert(dominates(headers@, sorted@[i], m));
        }
    }
    sorted
}

// ---------------------------------------------------------------------------
// Merging one item
// ---------------------------------------------------------------------------
/// What the local database holds of an item: its revision and the checksum
/// of its row.
#[derive(Debug, Clone)]
pub struct LocalItem {
    pub revision: i64,
    pub content_hash: String,
}

/// What was recorded the last time this source's copy of an item was merged.
#[derive(Debug, Clone)]
pub struct SeenRevision {
    pub revision: i64,
    pub content_hash: String,
    pub destination_item_id: Option<String>,
}

/// What merging an incoming item does.
#[derive(Debug, Clone, PartialEq, Eq)]
pub enum ItemMerge {
    /// A tombstone at least as new deletes it: nothing is written.
    Deleted,
    /// This very revision was merged before; it went to this item, if any.
    AlreadyMerged(Option<String>),
    /// The item is new here: insert it.
    Insert,
    /// The local copy is identical.
    Unchanged,
    /// The local copy has not moved since the last merge and the incoming
    /// one is newer: overwrite it.
    Update,
    /// Both sides changed: keep the local copy and add the incoming one as a
    /// conflict copy.
    Conflict,
}

/// The merge rule for an incoming item of revision `revision` and checksum
/// `hash`.
pub open spec fn item_merge_spec(
    tombstone_revision: Option<i64>,
    local: Option<LocalItem>,
    seen: Option<SeenRevision>,
    revision: i64,
    hash: Seq<char>,
) -> ItemMerge {
    if tombstone_revision matches Some(t) && t >= revision {
        ItemMerge::Deleted
    } else if seen matches Some(s) && s.revision == revision && s.content_hash@ == hash {
        ItemMerge::AlreadyMerged(seen->0.destination_item_id)
    } else {
        match local {
            None => ItemMerge::Insert,
            Some(l) => if l.content_hash@ == hash {
                ItemMerge::Unchanged
            } else if seen matches Some(s) && s.revision == l.revision && revision > l.revision {
                ItemMerge::Update
            } else {
                ItemMerge::Conflict
            },
        }
    }
}

/// Decides what merging an incoming item does.
pub fn decide_item_merge(
    tombstone_revision: Option<i64>,
    local: &Option<LocalItem>,
    seen: &Option<SeenRevision>,
    revision: i64,
    hash: &str,
) -> (r: ItemMerge)
    ensures
        r == item_merge_spec(tombstone_revision, *local, *seen, revision, hash@),
{
    match tombstone_revision {
        Some(t) => {
            if t >= revision {
                return ItemMerge::Deleted;
            }
        },
        None => {},
    }
    match seen {
        Some(s) => {
            if s.revision == revision && str_eq(s.content_hash.as_str(), hash) {
                let destination = match &s.destination_item_id {
                    Some(d) => Some(d.clone()),
                    None => None,
                };
                return ItemMerge::AlreadyMerged(destination);
            }
        },
        None => {},
    }
    match local {
        None => ItemMerge::Insert,
        Some(l) => {
            if str_eq(l.content_hash.as_str(), hash) {
                ItemMerge::Unchanged
            } else {
                let moved_on = match seen {
                    Some(s) => s.revision == l.revision && revision > l.revision,
                    None => false,
                };
                if moved_on {
                    ItemMerge::Update
                } else {
                    ItemMerge::Conflict
                }
            }
        },
    }
}

/// A merge never overwrites a local change it has not seen: when the local
/// copy differs from the incoming one and has moved on since the last merge
/// from this source (or was never merged from it), the incoming copy becomes
/// a conflict copy.
pub proof fn lemma_unseen_local_change_is_kept(
    tombstone_revision: Option<i64>,
    local: LocalItem,
    seen: Option<SeenRevision>,
    revision: i64,
    hash: Seq<char>,
)
    requires
        !(tombstone_revision matches Some(t) && t >= revision),
        !(seen matches Some(s) && s.revision == revision && s.content_hash@ == hash),
        local.content_hash@ != hash,
        !(seen matches Some(s) && s.revision == local.revision),
    ensures
        item_merge_spec(tombstone_revision, Some(local), seen, revision, hash) == ItemMerge::Conflict,
{
}

/// How many items a merge imported, left alone, copied as conflicts, and
/// deleted by tombstones.
#[derive(Debug, Clone, Copy)]
pub struct MergeCounts {
    pub imported: u64,
    pub unchanged: u64,
    pub conflicts: u64,
    pub tombstones: u64,
}

impl MergeCounts {
    /// Nothing counted yet.
    pub fn new() -> (r: Self)
        ensures
            r.imported == 0 && r.unchanged == 0 && r.conflicts == 0 && r.tombstones == 0,
    {
        MergeCounts { imported: 0, unchanged: 0, conflicts: 0, tombstones: 0 }
    }

    /// Counts one merged item: inserts and updates are imports; deleted,
    /// already merged and identical items are left alone.
    pub fn record(&mut self, decision: &ItemMerge)
        requires
            old(self).imported < u64::MAX,
            old(self).unchanged < u64::MAX,
            old(self).conflicts < u64::MAX,
        ensures
            final(self).tombstones == old(self).tombstones,
            final(self).imported == old(self).imported + if (*decision is Insert || *decision is Update) { 1int } else { 0int },
            final(self).unchanged == old(self).unchanged + if (*decision is Deleted || *decision is AlreadyMerged
                || *decision is Unchanged) { 1int } else { 0int },
            final(self).conflicts == old(self).conflicts + if *decision is Conflict { 1int } else { 0int },
    {
        match decision {
            ItemMerge::Insert | ItemMerge::Update => self.imported = self.imported + 1,
            ItemMerge::Deleted | ItemMerge::AlreadyMerged(_) | ItemMerge::Unchanged => self.unchanged = self.unchanged + 1,
            ItemMerge::Conflict => self.conflicts = self.conflicts + 1,
        }
    }
}

/// The title of a conflict copy.
pub fn conflict_title(title: &str) -> (r: String)
    ensures
        r@ == title@ + "（冲突副本）"@,
{
    let mut out = owned(title);
    out.append("（冲突副本）");
    out
}

/// A tombstone deletes the local item only when the local copy is no newer
/// than what was last merged from the tombstone's source.
pub open spec fn tombstone_deletes_spec(local_revision: Option<i64>, seen_revision: Option<i64>) -> bool {
    local_revision matches Some(l) && seen_revision matches Some(s) && l <= s
}

/// Whether a tombstone deletes the local item.
pub fn tombstone_deletes(local_revision: Option<i64>, seen_revision: Option<i64>) -> (r: bool)
    ensures
        r == tombstone_deletes_spec(local_revision, seen_revision),
{
    match (local_revision, seen_revision) {
        (Some(l), Some(s)) => l <= s,
        _ => false,
    }
}

/// The idempotency key a history row gets when its item went to a conflict
/// copy: `conflict:` the copy's id `:` a fresh id.
pub fn conflict_history_key(destination_item: &str, fresh: &str) -> (r: String)
    ensures
        r@ == "conflict:"@ + destination_item@ + ":"@ + fresh@,
{
    let mut out = owned("conflict:");
    out.append(destination_item);
    out.append(":");
    out.append(fresh);
    out
}

// ---------------------------------------------------------------------------
// Previews and status
// ---------------------------------------------------------------------------
/// How an incoming item would merge, as the preview counts it.
#[derive(Debug, Clone, Copy, PartialEq, Eq, Structural)]
pub enum PreviewOutcome {
    New,
    Unchanged,
    Conflict,
}

/// The preview of an incoming item: unchanged if this revision was seen
/// already or the local copy is identical, new if there is no local copy, a
/// conflict otherwise.
pub open spec fn preview_spec(seen_hash: Option<Seq<char>>, local_hash: Option<Seq<char>>, hash: Seq<char>) -> PreviewOutcome {
    if seen_hash == Some(hash) {
        PreviewOutcome::Unchanged
    } else {
        match local_hash {
            None => PreviewOutcome::New,
            Some(l) => if l == hash {
                PreviewOutcome::Unchanged
            } else {
                PreviewOutcome::Conflict
            },
        }
    }
}

/// Classifies an incoming item for the preview.
pub fn preview_outcome(seen_hash: &Option<String>, local_hash: &Option<String>, hash: &str) -> (r: PreviewOutcome)
    ensures
        r == preview_spec(opt_view(*seen_hash), opt_view(*local_hash), hash@),
{
    match seen_hash {
        Some(s) => {
            if str_eq(s.as_str(), hash) {
                return PreviewOutcome::Unchanged;
            }
        },
        None => {},
    }
    match local_hash {
        None => PreviewOutcome::New,
        Some(l) => {
            if str_eq(l.as_str(), hash) {
                PreviewOutcome::Unchanged
            } else {
                PreviewOutcome::Conflict
            }
        },
    }
}

/// The repository's stored configuration.
#[derive(Debug, Clone)]
pub struct RepositoryConfig {
    pub path: String,
    pub enabled: bool,
    pub last_synced_at: Option<String>,
    pub last_package_at: Option<String>,
    pub last_error_code: Option<String>,
}

/// The message when no repository has been chosen.
pub const NOT_CONFIGURED_MESSAGE: &'static str = "尚未选择个人仓库，本机记录与提醒不受影响。";
/// The message when the repository is switched off.
pub const DISABLED_MESSAGE: &'static str = "个人仓库已停用，本机仍可正常记录和提醒。";
/// The message when the repository is usable and holds this device's snapshot.
pub const READY_MESSAGE: &'static str = "个人仓库可用；归并期间本机仍是运行数据来源。";
/// The message when the repository is usable but lacks this device's snapshot.
pub const NO_SNAPSHOT_MESSAGE: &'static str = "个人仓库位置可用，但本机快照尚未写入。";
/// The message when the repository cannot be reached.
pub const UNAVAILABLE_MESSAGE: &'static str = "个人仓库暂时不可用，本机记录仍然安全并可继续使用。";

/// How many of the sources differ from this device.
pub open spec fn other_sources(sources: Seq<String>, own: Seq<char>) -> nat
    decreases sources.len(),
{
    if sources.len() == 0 {
        0
    } else {
        other_sources(sources.drop_last(), own) + if sources.last()@ != own { 1nat } else { 0nat }
    }
}

/// The status of the repository from what the store and the folder show:
/// not configured, switched off, or configured, with the sources of the
/// latest packages found (none when the folder cannot be read).
pub open spec fn status_spec(
    r: RepositoryStatus,
    local_item_count: u64,
    conflict_count: u64,
    config: Option<RepositoryConfig>,
    available: bool,
    sources: Seq<String>,
    own: Seq<char>,
) -> bool {
    &&& r.local_item_count == local_item_count
    &&& r.conflict_count == conflict_count
    &&& match config {
        None => {
            &&& !r.configured && r.path is None && !r.available
            &&& r.package_count == 0 && r.pending_source_count == 0
            &&& r.last_synced_at is None && r.last_package_at is None && r.last_error_code is None
            &&& !r.snapshot_ready
            &&& r.message@ == NOT_CONFIGURED_MESSAGE@
        },
        Some(c) => if !c.enabled {
            &&& !r.configured && opt_view(r.path) == Some(c.path@) && !r.available
            &&& r.package_count == 0 && r.pending_source_count == 0
            &&& opt_view(r.last_synced_at) == opt_view(c.last_synced_at)
            &&& opt_view(r.last_package_at) == opt_view(c.last_package_at)
            &&& opt_view(r.last_error_code) == opt_view(c.last_error_code)
            &&& !r.snapshot_ready
            &&& r.message@ == DISABLED_MESSAGE@
        } else {
            let found = if available { sources } else { Seq::<String>::empty() };
            let ready = found.len() > other_sources(found, own);
            &&& r.configured && opt_view(r.path) == Some(c.path@) && r.available == available
            &&& r.package_count == found.len()
            &&& r.pending_source_count == other_sources(found, own)
            &&& opt_view(r.last_synced_at) == opt_view(c.last_synced_at)
            &&& opt_view(r.last_package_at) == opt_view(c.last_package_at)
            &&& opt_view(r.last_error_code) == opt_view(c.last_error_code)
            &&& r.snapshot_ready == ready
            &&& r.message@ == if available && ready {
                READY_MESSAGE@
            } else if available {
                NO_SNAPSHOT_MESSAGE@
            } else {
                UNAVAILABLE_MESSAGE@
            }
        },
    }
}

proof fn lemma_other_sources_le(sources: Seq<String>, own: Seq<char>)
    ensures
        other_sources(sources, own) <= sources.len(),
    decreases sources.len(),
{
    if sources.len() > 0 {
        lemma_other_sources_le(sources.drop_last(), own);
    }
}

/// Builds the repository status (see `status_spec`).
pub fn repository_status(
    local_item_count: u64,
    conflict_count: u64,
    config: Option<RepositoryConfig>,
    available: bool,
    sources: &Vec<String>,
    own: &str,
) -> (r: RepositoryStatus)
    ensures
        status_spec(r, local_item_count, conflict_count, config, available, sources@, own@),
{
    match config {
        None => RepositoryStatus {
            configured: false,
            path: None,
            available: false,
            local_item_count,
            package_count: 0,
            pending_source_count: 0,
            conflict_count,
            last_synced_at: None,
            last_package_at: None,
            snapshot_ready: false,
            last_error_code: None,
            message: owned(NOT_CONFIGURED_MESSAGE),
        },
        Some(c) => {
            if !c.enabled {
                return RepositoryStatus {
                    configured: false,
                    path: Some(c.path),
                    available: false,
                    local_item_count,
                    package_count: 0,
                    pending_source_count: 0,
                    conflict_count,
                    last_synced_at: c.last_synced_at,
                    last_package_at: c.last_package_at,
                    snapshot_ready: false,
                    last_error_code: c.last_error_code,
                    message: owned(DISABLED_MESSAGE),
                };
            }
            let ghost found = if available { sources@ } else { Seq::<String>::empty() };
            let mut package_count: u64 = 0;
            let mut pending: u64 = 0;
            if available {
                let mut i: usize = 0;
                while i < sources.len()
                    invariant
                        i <= sources@.len(),
                        package_count == i,
                        pending == other_sources(sources@.subrange(0, i as int), own@),
                        pending <= i,
                    decreases sources@.len() - i,
                {
                    proof {
                        let next = sources@.subrange(0, i as int + 1);
                        assert(next.drop_last() =~= sources@.subrange(0, i as int));
                        assert(next.last() == sources@[i as int]);
                    }
                    if !str_eq(sources[i].as_str(), own) {
                        pending = pending + 1;
                    }
                    package_count = package_count + 1;
                    i = i + 1;
                }
                assert(sources@.subrange(0, sources@.len() as int) =~= sources@);
            }
            let ready = package_count > pending;
            let message = if available && ready {
                owned(READY_MESSAGE)
            } else if available {
                owned(NO_SNAPSHOT_MESSAGE)
            } else {
                owned(UNAVAILABLE_MESSAGE)
            };
            RepositoryStatus {
                configured: true,
                path: Some(c.path),
                available,
                local_item_count,
                package_count,
                pending_source_count: pending,
                conflict_count,
                last_synced_at: c.last_synced_at,
                last_package_at: c.last_package_at,
                snapshot_ready: ready,
                last_error_code: c.last_error_code,
                message,
            }
        },
    }
}

/// Adds one source's preview to the totals; any settings row in the package
/// asks for a review.
pub fn add_source_preview(preview: &mut RepositoryPreview, source: RepositorySourcePreview, has_settings: bool)
    requires
        old(preview).new_items + source.new_items <= u64::MAX,
        old(preview).unchanged_items + source.unchanged_items <= u64::MAX,
        old(preview).conflicts + source.conflicts <= u64::MAX,
        old(preview).tombstones + source.tombstones <= u64::MAX,
    ensures
        final(preview).new_items == old(preview).new_items + source.new_items,
        final(preview).unchanged_items == old(preview).unchanged_items + source.unchanged_items,
        final(preview).conflicts == old(preview).conflicts + source.conflicts,
        final(preview).tombstones == old(preview).tombstones + source.tombstones,
        final(preview).settings_need_review == (old(preview).settings_need_review || has_settings),
        final(preview).sources@ == old(preview).sources@.push(source),
{
    preview.new_items = preview.new_items + source.new_items;
    preview.unchanged_items = preview.unchanged_items + source.unchanged_items;
    preview.conflicts = preview.conflicts + source.conflicts;
    preview.tombstones = preview.tombstones + source.tombstones;
    preview.settings_need_review = preview.settings_need_review || has_settings;
    preview.sources.push(source);
}

/// The result of a merge from its counts and the snapshot it wrote, if any.
pub fn sync_result(counts: MergeCounts, package_path: Option<String>, synced_at: String) -> (r: RepositorySyncResult)
    ensures
        r.imported_items == counts.imported,
        r.unchanged_items == counts.unchanged,
        r.conflicts == counts.conflicts,
        r.tombstones_applied == counts.tombstones,
        r.package_written == (package_path is Some),
        r.package_path == package_path,
        r.synced_at == synced_at,
{
    RepositorySyncResult {
        imported_items: counts.imported,
        unchanged_items: counts.unchanged,
        conflicts: counts.conflicts,
        tombstones_applied: counts.tombstones,
        package_written: package_path.is_some(),
        package_path,
        synced_at,
    }
}

} // verus!
