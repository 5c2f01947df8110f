//! Folder scans: how each file found updates the scan counters, the summary
//! written to the activity log, and which index entries a scan or a removed
//! file marks unavailable.

use vstd::prelude::*;
use crate::models::ScanResult;
use crate::paths::{path_starts_with, same_path, spec_path_starts_with, spec_same_path};
use crate::sources::{vec_contains_i64, LocationRow};
use crate::text::{chars_of, push_decimal, push_str, str_eq, string_from_chars};

verus! {

/// What a scan found at one step.
#[derive(Debug, Clone, Copy, PartialEq, Eq, Structural)]
pub enum ScanEvent {
    /// The user cancelled the scan.
    Cancelled,
    /// A requested folder does not exist or is not a folder.
    RootMissing,
    /// The folder walk reported an error for an entry.
    EntryError,
    /// The entry is not a file, or its extension is not supported.
    Skipped,
    /// The file has a supported extension but is not an image.
    NotAnImage,
    /// The file's size and time could not be read.
    StampFailed,
    /// The file is indexed already and unchanged.
    Unchanged,
    /// The file was indexed; `duplicate` when its content was indexed before.
    Indexed { duplicate: bool },
    /// Indexing the file failed.
    IndexFailed,
}

/// Counters that every scan keeps consistent: skipped and duplicate files
/// are indexed files, and indexed files are discovered files.
pub open spec fn scan_consistent(r: ScanResult) -> bool {
    r.skipped + r.duplicates <= r.indexed <= r.discovered
}

/// A scan before it has seen anything.
pub fn new_scan_result() -> (r: ScanResult)
    ensures
        r == (ScanResult {
            discovered: 0,
            indexed: 0,
            duplicates: 0,
            unsupported: 0,
            failed: 0,
            skipped: 0,
            cancelled: false,
        }),
        scan_consistent(r),
{
    ScanResult {
        discovered: 0,
        indexed: 0,
        duplicates: 0,
        unsupported: 0,
        failed: 0,
        skipped: 0,
        cancelled: false,
    }
}

/// Whether the counters can take one more step without overflowing.
pub open spec fn can_record(r: ScanResult) -> bool {
    r.discovered < u32::MAX && r.indexed < u32::MAX && r.duplicates < u32::MAX && r.unsupported
        < u32::MAX && r.failed < u32::MAX && r.skipped < u32::MAX
}

/// The counters after one step.
pub open spec fn spec_record(r: ScanResult, e: ScanEvent) -> ScanResult {
    match e {
        ScanEvent::Cancelled => ScanResult { cancelled: true, ..r },
        ScanEvent::RootMissing => ScanResult { failed: (r.failed + 1) as u32, ..r },
        ScanEvent::EntryError => ScanResult { failed: (r.failed + 1) as u32, ..r },
        ScanEvent::Skipped => r,
        ScanEvent::NotAnImage => ScanResult { unsupported: (r.unsupported + 1) as u32, ..r },
        ScanEvent::StampFailed => ScanResult {
            discovered: (r.discovered + 1) as u32,
            failed: (r.failed + 1) as u32,
            ..r
        },
        ScanEvent::Unchanged => ScanResult {
            discovered: (r.discovered + 1) as u32,
            indexed: (r.indexed + 1) as u32,
            skipped: (r.skipped + 1) as u32,
            ..r
        },
        ScanEvent::Indexed { duplicate } => ScanResult {
            discovered: (r.discovered + 1) as u32,
            indexed: (r.indexed + 1) as u32,
            duplicates: if duplicate {
                (r.duplicates + 1) as u32
            } else {
                r.duplicates
            },
            ..r
        },
        ScanEvent::IndexFailed => ScanResult {
            discovered: (r.discovered + 1) as u32,
            failed: (r.failed + 1) as u32,
            ..r
        },
    }
}

/// Records one step of a scan.
pub fn record_scan_event(r: &mut ScanResult, e: ScanEvent)
    requires
        can_record(*old(r)),
    ensures
        *final(r) == spec_record(*old(r), e),
{
    match e {
        ScanEvent::Cancelled => {
            r.cancelled = true;
        },
        ScanEvent::RootMissing | ScanEvent::EntryError => {
            r.failed = r.failed + 1;
        },
        ScanEvent::Skipped => {},
        ScanEvent::NotAnImage => {
            r.unsupported = r.unsupported + 1;
        },
        ScanEvent::StampFailed | ScanEvent::IndexFailed => {
            r.discovered = r.discovered + 1;
            r.failed = r.failed + 1;
        },
        ScanEvent::Unchanged => {
            r.discovered = r.discovered + 1;
            r.indexed = r.indexed + 1;
            r.skipped = r.skipped + 1;
        },
        ScanEvent::Indexed { duplicate } => {
            r.discovered = r.discovered + 1;
            r.indexed = r.indexed + 1;
            if duplicate {
                r.duplicates = r.duplicates + 1;
            }
        },
    }
}

/// Every step keeps the counters consistent, and counters never decrease.
pub proof fn law_scan_counters_stay_consistent(r: ScanResult, e: ScanEvent)
    requires
        scan_consistent(r),
        can_record(r),
    ensures
        scan_consistent(spec_record(r, e)),
        spec_record(r, e).discovered >= r.discovered,
        spec_record(r, e).indexed >= r.indexed,
        spec_record(r, e).failed >= r.failed,
        spec_record(r, e).cancelled == (r.cancelled || e == ScanEvent::Cancelled),
{
}

/// What each counter counts. `discovered`: image files reached (whatever
/// became of them); `indexed`: files indexed now or found indexed and
/// unchanged; `skipped`: exactly the unchanged files, which are not indexed
/// again; `duplicates`: newly indexed files whose content was indexed
/// before; `unsupported`: files with a picture extension that are not
/// images; `failed`: missing folders, walk errors and files that could not
/// be read or indexed. Entries that are no picture files count nowhere.
pub proof fn law_scan_counters_count_their_files(r: ScanResult, e: ScanEvent)
    requires
        can_record(r),
    ensures
        spec_record(r, e).discovered == r.discovered + (if e == ScanEvent::StampFailed || e
            == ScanEvent::Unchanged || e is Indexed || e == ScanEvent::IndexFailed {
            1int
        } else {
            0int
        }),
        spec_record(r, e).indexed == r.indexed + (if e == ScanEvent::Unchanged || e is Indexed {
            1int
        } else {
            0int
        }),
        spec_record(r, e).skipped == r.skipped + (if e == ScanEvent::Unchanged {
            1int
        } else {
            0int
        }),
        spec_record(r, e).duplicates == r.duplicates + (if e == (ScanEvent::Indexed { duplicate: true }) {
            1int
        } else {
            0int
        }),
        spec_record(r, e).unsupported == r.unsupported + (if e == ScanEvent::NotAnImage {
            1int
        } else {
            0int
        }),
        spec_record(r, e).failed == r.failed + (if e == ScanEvent::RootMissing || e
            == ScanEvent::EntryError || e == ScanEvent::StampFailed || e == ScanEvent::IndexFailed {
            1int
        } else {
            0int
        }),
        spec_record(r, e).cancelled == (r.cancelled || e == ScanEvent::Cancelled),
        e == ScanEvent::Skipped ==> spec_record(r, e) == r,
{
}

/// The activity note of a finished scan.
pub open spec fn spec_scan_summary(r: ScanResult) -> Seq<char> {
    "发现 "@ + crate::text::decimal(r.discovered as nat) + " 张图片，索引 "@ + crate::text::decimal(
        r.indexed as nat,
    ) + " 张，跳过 "@ + crate::text::decimal(r.skipped as nat) + " 张未变化文件，"@
        + crate::text::decimal(r.failed as nat) + " 张需要复查"@ + if r.cancelled {
        "，扫描已取消"@
    } else {
        Seq::<char>::empty()
    }
}

/// The activity note of a finished scan.
pub fn scan_summary(r: &ScanResult) -> (out: String)
    ensures
        out@ == spec_scan_summary(*r),
{
    let mut v = chars_of("发现 ");
    push_decimal(&mut v, r.discovered as u64);
    push_str(&mut v, " 张图片，索引 ");
    push_decimal(&mut v, r.indexed as u64);
    push_str(&mut v, " 张，跳过 ");
    push_decimal(&mut v, r.skipped as u64);
    push_str(&mut v, " 张未变化文件，");
    push_decimal(&mut v, r.failed as u64);
    push_str(&mut v, " 张需要复查");
    if r.cancelled {
        push_str(&mut v, "，扫描已取消");
    }
    string_from_chars(&v)
}

/// An available index entry with the time it was last seen.
#[derive(Debug, Clone)]
pub struct SeenRow {
    pub id: i64,
    pub asset_id: i64,
    pub path: String,
    pub last_seen_at: String,
}

/// Whether a scan of `root` that stamped files with `seen_at` did not see
/// the entry, although the entry lies under `root`.
pub open spec fn unseen(row: SeenRow, root: Seq<char>, seen_at: Seq<char>) -> bool {
    row.last_seen_at@ != seen_at && spec_path_starts_with(row.path@, root)
}

/// The entries to mark unavailable after a scan, in order.
pub open spec fn unseen_ids(rows: Seq<SeenRow>, root: Seq<char>, seen_at: Seq<char>) -> Seq<i64>
    decreases rows.len(),
{
    if rows.len() == 0 {
        seq![]
    } else {
        let r = unseen_ids(rows.drop_last(), root, seen_at);
        if unseen(rows.last(), root, seen_at) {
            r.push(rows.last().id)
        } else {
            r
        }
    }
}

/// The distinct pictures of those entries, in order of first appearance.
pub open spec fn unseen_assets(rows: Seq<SeenRow>, root: Seq<char>, seen_at: Seq<char>) -> Seq<i64>
    decreases rows.len(),
{
    if rows.len() == 0 {
        seq![]
    } else {
        let r = unseen_assets(rows.drop_last(), root, seen_at);
        if unseen(rows.last(), root, seen_at) && !r.contains(rows.last().asset_id) {
            r.push(rows.last().asset_id)
        } else {
            r
        }
    }
}

/// Entries under a scanned folder that the scan did not see, and their pictures.
pub fn unseen_locations(rows: &Vec<SeenRow>, root: &str, seen_at: &str) -> (out: (Vec<i64>, Vec<i64>))
    ensures
        out.0@ == unseen_ids(rows@, root@, seen_at@),
        out.1@ == unseen_assets(rows@, root@, seen_at@),
{
    let mut ids: Vec<i64> = Vec::new();
    let mut assets: Vec<i64> = Vec::new();
    let mut i: usize = 0;
    while i < rows.len()
        invariant
            i <= rows@.len(),
            ids@ == unseen_ids(rows@.take(i as int), root@, seen_at@),
            assets@ == unseen_assets(rows@.take(i as int), root@, seen_at@),
        decreases rows.len() - i,
    {
        assert(rows@.take(i + 1).drop_last() == rows@.take(i as int));
        assert(rows@.take(i + 1).last() == rows@[i as int]);
        let row = &rows[i];
        if !str_eq(row.last_seen_at.as_str(), seen_at) && path_starts_with(row.path.as_str(), root) {
            ids.push(row.id);
            if !vec_contains_i64(&assets, row.asset_id) {
                assets.push(row.asset_id);
            }
        }
        i = i + 1;
    }
    assert(rows@.take(i as int) == rows@);
    (ids, assets)
}

/// Every unseen entry under the folder is marked, with its picture.
proof fn lemma_unseen_marked(rows: Seq<SeenRow>, root: Seq<char>, seen_at: Seq<char>, k: int)
    requires
        0 <= k < rows.len(),
        unseen(rows[k], root, seen_at),
    ensures
        unseen_ids(rows, root, seen_at).contains(rows[k].id),
        unseen_assets(rows, root, seen_at).contains(rows[k].asset_id),
    decreases rows.len(),
{
    let d = rows.drop_last();
    let ri = unseen_ids(d, root, seen_at);
    let ra = unseen_assets(d, root, seen_at);
    let oi = unseen_ids(rows, root, seen_at);
    let oa = unseen_assets(rows, root, seen_at);
    if k < rows.len() - 1 {
        assert(d[k] == rows[k]);
        lemma_unseen_marked(d, root, seen_at, k);
        let j = choose|j: int| 0 <= j < ri.len() && ri[j] == rows[k].id;
        assert(oi[j] == rows[k].id);
        let j2 = choose|j2: int| 0 <= j2 < ra.len() && ra[j2] == rows[k].asset_id;
        assert(oa[j2] == rows[k].asset_id);
    } else {
        assert(oi[oi.len() - 1] == rows[k].id);
        if !ra.contains(rows[k].asset_id) {
            assert(oa[oa.len() - 1] == rows[k].asset_id);
        }
    }
}

/// Every marked entry is an unseen entry under the folder.
proof fn lemma_marked_unseen(rows: Seq<SeenRow>, root: Seq<char>, seen_at: Seq<char>, x: i64)
    requires
        unseen_ids(rows, root, seen_at).contains(x),
    ensures
        exists|k: int| 0 <= k < rows.len() && (#[trigger] rows[k]).id == x && unseen(rows[k], root, seen_at),
    decreases rows.len(),
{
    let d = rows.drop_last();
    let ri = unseen_ids(d, root, seen_at);
    let oi = unseen_ids(rows, root, seen_at);
    let j = choose|j: int| 0 <= j < oi.len() && oi[j] == x;
    if j < ri.len() {
        assert(ri[j] == x);
        lemma_marked_unseen(d, root, seen_at, x);
        let k = choose|k: int| 0 <= k < d.len() && (#[trigger] d[k]).id == x && unseen(d[k], root, seen_at);
        assert(rows[k] == d[k]);
    } else {
        assert(rows[rows.len() - 1] == rows.last());
    }
}

/// Every refreshed picture is the picture of an unseen entry, and none is
/// listed twice.
proof fn lemma_refreshed_unseen(rows: Seq<SeenRow>, root: Seq<char>, seen_at: Seq<char>)
    ensures
        forall|x: i64|
            #[trigger] unseen_assets(rows, root, seen_at).contains(x) ==> exists|k: int|
                0 <= k < rows.len() && (#[trigger] rows[k]).asset_id == x && unseen(rows[k], root, seen_at),
        unseen_assets(rows, root, seen_at).no_duplicates(),
    decreases rows.len(),
{
    if rows.len() > 0 {
        let d = rows.drop_last();
        let l = rows.last();
        lemma_refreshed_unseen(d, root, seen_at);
        let ra = unseen_assets(d, root, seen_at);
        let oa = unseen_assets(rows, root, seen_at);
        assert forall|x: i64| #[trigger] oa.contains(x) implies exists|k: int|
            0 <= k < rows.len() && (#[trigger] rows[k]).asset_id == x && unseen(rows[k], root, seen_at) by {
            let j = choose|j: int| 0 <= j < oa.len() && oa[j] == x;
            if j < ra.len() {
                assert(ra[j] == x);
                assert(ra.contains(x));
                let k = choose|k: int|
                    0 <= k < d.len() && (#[trigger] d[k]).asset_id == x && unseen(d[k], root, seen_at);
                assert(rows[k] == d[k]);
            } else {
                assert(rows[rows.len() - 1] == l);
            }
        }
        if unseen(l, root, seen_at) && !ra.contains(l.asset_id) {
            assert forall|a: int, b: int| 0 <= a < oa.len() && 0 <= b < oa.len() && a != b implies oa[a]
                != oa[b] by {
                if a == ra.len() {
                    assert(oa[b] == ra[b]);
                } else if b == ra.len() {
                    assert(oa[a] == ra[a]);
                } else {
                    assert(oa[a] == ra[a] && oa[b] == ra[b]);
                }
            }
        }
    }
}

/// After a scan of `root` that stamped the files it saw with `seen_at`, the
/// entries marked unavailable are exactly the entries under `root` whose
/// stamp is another one, and the pictures refreshed are exactly their
/// pictures, each once.
pub proof fn law_unseen_entries(rows: Seq<SeenRow>, root: Seq<char>, seen_at: Seq<char>)
    ensures
        forall|k: int|
            0 <= k < rows.len() && (#[trigger] rows[k]).last_seen_at@ != seen_at
                && spec_path_starts_with(rows[k].path@, root) ==> unseen_ids(rows, root, seen_at).contains(
                rows[k].id,
            ) && unseen_assets(rows, root, seen_at).contains(rows[k].asset_id),
        forall|x: i64|
            #[trigger] unseen_ids(rows, root, seen_at).contains(x) ==> exists|k: int|
                0 <= k < rows.len() && (#[trigger] rows[k]).id == x && rows[k].last_seen_at@ != seen_at
                    && spec_path_starts_with(rows[k].path@, root),
        forall|x: i64|
            #[trigger] unseen_assets(rows, root, seen_at).contains(x) ==> exists|k: int|
                0 <= k < rows.len() && (#[trigger] rows[k]).asset_id == x && rows[k].last_seen_at@
                    != seen_at && spec_path_starts_with(rows[k].path@, root),
        unseen_assets(rows, root, seen_at).no_duplicates(),
{
    assert forall|k: int|
        0 <= k < rows.len() && (#[trigger] rows[k]).last_seen_at@ != seen_at
            && spec_path_starts_with(rows[k].path@, root) implies unseen_ids(rows, root, seen_at).contains(
        rows[k].id,
    ) && unseen_assets(rows, root, seen_at).contains(rows[k].asset_id) by {
        lemma_unseen_marked(rows, root, seen_at, k);
    }
    assert forall|x: i64| #[trigger] unseen_ids(rows, root, seen_at).contains(x) implies exists|k: int|
        0 <= k < rows.len() && (#[trigger] rows[k]).id == x && rows[k].last_seen_at@ != seen_at
            && spec_path_starts_with(rows[k].path@, root) by {
        lemma_marked_unseen(rows, root, seen_at, x);
    }
    lemma_refreshed_unseen(rows, root, seen_at);
}

/// Whether an entry is the removed path or lies under it.
pub open spec fn gone_with(path: Seq<char>, missing: Seq<char>) -> bool {
    spec_same_path(path, missing) || spec_path_starts_with(path, missing)
}

/// The entries to mark unavailable when a path disappears, in order.
pub open spec fn missing_ids(rows: Seq<LocationRow>, missing: Seq<char>) -> Seq<i64>
    decreases rows.len(),
{
    if rows.len() == 0 {
        seq![]
    } else {
        let r = missing_ids(rows.drop_last(), missing);
        if gone_with(rows.last().path@, missing) {
            r.push(rows.last().id)
        } else {
            r
        }
    }
}

/// The distinct pictures of those entries, in order of first appearance.
pub open spec fn missing_assets(rows: Seq<LocationRow>, missing: Seq<char>) -> Seq<i64>
    decreases rows.len(),
{
    if rows.len() == 0 {
        seq![]
    } else {
        let r = missing_assets(rows.drop_last(), missing);
        if gone_with(rows.last().path@, missing) && !r.contains(rows.last().asset_id) {
            r.push(rows.last().asset_id)
        } else {
            r
        }
    }
}

/// Available entries at or under a path that has disappeared, and their pictures.
pub fn missing_locations(rows: &Vec<LocationRow>, missing: &str) -> (out: (Vec<i64>, Vec<i64>))
    ensures
        out.0@ == missing_ids(rows@, missing@),
        out.1@ == missing_assets(rows@, missing@),
{
    let mut ids: Vec<i64> = Vec::new();
    let mut assets: Vec<i64> = Vec::new();
    let mut i: usize = 0;
    while i < rows.len()
        invariant
            i <= rows@.len(),
            ids@ == missing_ids(rows@.take(i as int), missing@),
            assets@ == missing_assets(rows@.take(i as int), missing@),
        decreases rows.len() - i,
    {
        assert(rows@.take(i + 1).drop_last() == rows@.take(i as int));
        assert(rows@.take(i + 1).last() == rows@[i as int]);
        let row = &rows[i];
        if same_path(row.path.as_str(), missing) || path_starts_with(row.path.as_str(), missing) {
            ids.push(row.id);
            if !vec_contains_i64(&assets, row.asset_id) {
                assets.push(row.asset_id);
            }
        }
        i = i + 1;
    }
    assert(rows@.take(i as int) == rows@);
    (ids, assets)
}

/// Every entry at or under the vanished path is marked, with its picture.
proof fn lemma_gone_marked(rows: Seq<LocationRow>, missing: Seq<char>, k: int)
    requires
        0 <= k < rows.len(),
        gone_with(rows[k].path@, missing),
    ensures
        missing_ids(rows, missing).contains(rows[k].id),
        missing_assets(rows, missing).contains(rows[k].asset_id),
    decreases rows.len(),
{
    let d = rows.drop_last();
    let ri = missing_ids(d, missing);
    let ra = missing_assets(d, missing);
    let oi = missing_ids(rows, missing);
    let oa = missing_assets(rows, missing);
    if k < rows.len() - 1 {
        assert(d[k] == rows[k]);
        lemma_gone_marked(d, missing, k);
        let j = choose|j: int| 0 <= j < ri.len() && ri[j] == rows[k].id;
        assert(oi[j] == rows[k].id);
        let j2 = choose|j2: int| 0 <= j2 < ra.len() && ra[j2] == rows[k].asset_id;
        assert(oa[j2] == rows[k].asset_id);
    } else {
        assert(oi[oi.len() - 1] == rows[k].id);
        if !ra.contains(rows[k].asset_id) {
            assert(oa[oa.len() - 1] == rows[k].asset_id);
        }
    }
}

/// Every marked entry lies at or under the vanished path.
proof fn lemma_marked_gone(rows: Seq<LocationRow>, missing: Seq<char>, x: i64)
    requires
        missing_ids(rows, missing).contains(x),
    ensures
        exists|k: int| 0 <= k < rows.len() && (#[trigger] rows[k]).id == x && gone_with(rows[k].path@, missing),
    decreases rows.len(),
{
    let d = rows.drop_last();
    let ri = missing_ids(d, missing);
    let oi = missing_ids(rows, missing);
    let j = choose|j: int| 0 <= j < oi.len() && oi[j] == x;
    if j < ri.len() {
        assert(ri[j] == x);
        lemma_marked_gone(d, missing, x);
        let k = choose|k: int| 0 <= k < d.len() && (#[trigger] d[k]).id == x && gone_with(d[k].path@, missing);
        assert(rows[k] == d[k]);
    } else {
        assert(rows[rows.len() - 1] == rows.last());
    }
}

/// Every refreshed picture is the picture of such an entry, and none is
/// listed twice.
proof fn lemma_refreshed_gone(rows: Seq<LocationRow>, missing: Seq<char>)
    ensures
        forall|x: i64|
            #[trigger] missing_assets(rows, missing).contains(x) ==> exists|k: int|
                0 <= k < rows.len() && (#[trigger] rows[k]).asset_id == x && gone_with(rows[k].path@, missing),
        missing_assets(rows, missing).no_duplicates(),
    decreases rows.len(),
{
    if rows.len() > 0 {
        let d = rows.drop_last();
        let l = rows.last();
        lemma_refreshed_gone(d, missing);
        let ra = missing_assets(d, missing);
        let oa = missing_assets(rows, missing);
        assert forall|x: i64| #[trigger] oa.contains(x) implies exists|k: int|
            0 <= k < rows.len() && (#[trigger] rows[k]).asset_id == x && gone_with(rows[k].path@, missing) by {
            let j = choose|j: int| 0 <= j < oa.len() && oa[j] == x;
            if j < ra.len() {
                assert(ra[j] == x);
                assert(ra.contains(x));
                let k = choose|k: int|
                    0 <= k < d.len() && (#[trigger] d[k]).asset_id == x && gone_with(d[k].path@, missing);
                assert(rows[k] == d[k]);
            } else {
                assert(rows[rows.len() - 1] == l);
            }
        }
        if gone_with(l.path@, missing) && !ra.contains(l.asset_id) {
            assert forall|a: int, b: int| 0 <= a < oa.len() && 0 <= b < oa.len() && a != b implies oa[a]
                != oa[b] by {
                if a == ra.len() {
                    assert(oa[b] == ra[b]);
                } else if b == ra.len() {
                    assert(oa[a] == ra[a]);
                } else {
                    assert(oa[a] == ra[a] && oa[b] == ra[b]);
                }
            }
        }
    }
}

/// When a path disappears, the entries marked unavailable are exactly the
/// entries at that path or under it, and the pictures refreshed are exactly
/// their pictures, each once.
pub proof fn law_missing_entries(rows: Seq<LocationRow>, missing: Seq<char>)
    ensures
        forall|k: int|
            0 <= k < rows.len() && (spec_same_path((#[trigger] rows[k]).path@, missing)
                || spec_path_starts_with(rows[k].path@, missing)) ==> missing_ids(rows, missing).contains(
                rows[k].id,
            ) && missing_assets(rows, missing).contains(rows[k].asset_id),
        forall|x: i64|
            #[trigger] missing_ids(rows, missing).contains(x) ==> exists|k: int|
                0 <= k < rows.len() && (#[trigger] rows[k]).id == x && (spec_same_path(rows[k].path@, missing)
                    || spec_path_starts_with(rows[k].path@, missing)),
        forall|x: i64|
            #[trigger] missing_assets(rows, missing).contains(x) ==> exists|k: int|
                0 <= k < rows.len() && (#[trigger] rows[k]).asset_id == x && (spec_same_path(rows[k].path@,
                    missing) || spec_path_starts_with(rows[k].path@, missing)),
        missing_assets(rows, missing).no_duplicates(),
{
    assert forall|k: int|
        0 <= k < rows.len() && (spec_same_path((#[trigger] rows[k]).path@, missing)
            || spec_path_starts_with(rows[k].path@, missing)) implies missing_ids(rows, missing).contains(
        rows[k].id,
    ) && missing_assets(rows, missing).contains(rows[k].asset_id) by {
        lemma_gone_marked(rows, missing, k);
    }
    assert forall|x: i64| #[trigger] missing_ids(rows, missing).contains(x) implies exists|k: int|
        0 <= k < rows.len() && (#[trigger] rows[k]).id == x && (spec_same_path(rows[k].path@, missing)
            || spec_path_starts_with(rows[k].path@, missing)) by {
        lemma_marked_gone(rows, missing, x);
    }
    lemma_refreshed_gone(rows, missing);
}


} // verus!
