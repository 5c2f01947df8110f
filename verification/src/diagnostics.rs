//! The diagnostics report: what it holds, what it leaves out, and the name of
//! the file it is written to.

use vstd::prelude::*;
use crate::models::{ActivityItem, AppSettings, LibraryStats};
use crate::text::{chars_of, push_str, string_from_chars};

verus! {

broadcast use vstd::string::group_string_axioms;

/// At most this many recent activity entries go into a report.
pub const REPORT_ACTIVITY_LIMIT: usize = 10;

/// The cached thumbnails: how many files, and their size in bytes (saturating).
#[derive(Debug, Clone, Copy, PartialEq, Eq, Structural)]
pub struct ThumbnailTotals {
    pub count: u64,
    pub bytes: u64,
}

/// The sum of the sizes.
pub open spec fn size_sum(sizes: Seq<u64>) -> nat
    decreases sizes.len(),
{
    if sizes.len() == 0 {
        0
    } else {
        size_sum(sizes.drop_last()) + sizes.last() as nat
    }
}

/// The sum, or `u64::MAX` when it does not fit.
pub open spec fn saturated(n: nat) -> u64 {
    if n > u64::MAX {
        u64::MAX
    } else {
        n as u64
    }
}

/// Counts the thumbnail files and adds up their sizes, saturating at `u64::MAX`.
pub fn thumbnail_totals(sizes: &Vec<u64>) -> (t: ThumbnailTotals)
    ensures
        t.count == sizes@.len(),
        t.bytes == saturated(size_sum(sizes@)),
{
    let mut count: u64 = 0;
    let mut bytes: u64 = 0;
    let mut i: usize = 0;
    while i < sizes.len()
        invariant
            i <= sizes@.len(),
            count == i,
            bytes == saturated(size_sum(sizes@.take(i as int))),
        decreases sizes.len() - i,
    {
        assert(sizes@.take(i + 1 as int).drop_last() == sizes@.take(i as int));
        bytes = bytes.saturating_add(sizes[i]);
        count = count + 1;
        i = i + 1;
    }
    assert(sizes@.take(sizes@.len() as int) == sizes@);
    ThumbnailTotals { count, bytes }
}

/// What is known about the stored data when the report is written.
#[derive(Debug, Clone, Copy)]
pub struct StorageFacts {
    pub schema_version: i64,
    pub database_bytes: u64,
    pub thumbnails: ThumbnailTotals,
    pub active_recovery_jobs: i64,
}

/// The build the report describes.
#[derive(Debug, Clone)]
pub struct BuildInfo {
    pub version: String,
    pub platform: String,
    pub architecture: String,
}

/// An activity entry as a report shows it: its detail text is left out.
#[derive(Debug, Clone)]
pub struct ReportActivity {
    pub kind: String,
    pub title: String,
    pub created_at: String,
    pub reversible: bool,
}

/// The diagnostics report. It holds no folder path, no key and no picture:
/// of the settings only flags, counts and model names.
#[derive(Debug, Clone)]
pub struct DiagnosticsReport {
    pub generated_at: String,
    pub application: String,
    pub build: BuildInfo,
    pub contains_paths: bool,
    pub contains_keys: bool,
    pub contains_images: bool,
    pub telemetry_enabled: bool,
    pub configured: bool,
    pub source_count: u64,
    pub locale: String,
    pub cloud_ai_enabled: bool,
    pub api_key_configured: bool,
    pub vision_model: String,
    pub embedding_model: String,
    pub ai_batch_limit: u32,
    pub stats: LibraryStats,
    pub storage: StorageFacts,
    pub recent_activity: Vec<ReportActivity>,
}

/// Whether the report entry shows the activity item.
pub open spec fn shows_activity(r: ReportActivity, item: ActivityItem) -> bool {
    &&& r.kind@ == item.kind@
    &&& r.title@ == item.title@
    &&& r.created_at@ == item.created_at@
    &&& r.reversible == item.reversible
}

fn copy_string(s: &String) -> (out: String)
    ensures
        out@ == s@,
{
    s.clone()
}

/// Builds the report from the settings, statistics, storage facts and
/// recent activity (newest first); `generated_at` is the time of writing.
pub fn diagnostics_report(
    settings: &AppSettings,
    stats: &LibraryStats,
    storage: StorageFacts,
    activity: &Vec<ActivityItem>,
    generated_at: String,
    build: BuildInfo,
) -> (r: DiagnosticsReport)
    ensures
        r.generated_at == generated_at,
        r.application@ == "PicNest"@,
        r.build == build,
        !r.contains_paths && !r.contains_keys && !r.contains_images,
        r.telemetry_enabled == settings.telemetry_enabled,
        r.configured == settings.configured,
        r.source_count == settings.source_paths@.len(),
        r.locale@ == settings.locale@,
        r.cloud_ai_enabled == settings.cloud_ai_enabled,
        r.api_key_configured == settings.api_key_configured,
        r.vision_model@ == settings.vision_model@,
        r.embedding_model@ == settings.embedding_model@,
        r.ai_batch_limit == settings.ai_batch_limit,
        r.stats == *stats,
        r.storage == storage,
        r.recent_activity@.len() == if activity@.len() < REPORT_ACTIVITY_LIMIT {
            activity@.len()
        } else {
            REPORT_ACTIVITY_LIMIT as nat
        },
        forall|i: int|
            0 <= i < r.recent_activity@.len() ==> shows_activity(
                #[trigger] r.recent_activity@[i],
                activity@[i],
            ),
{
    let mut recent: Vec<ReportActivity> = Vec::new();
    let mut i: usize = 0;
    while i < activity.len() && i < REPORT_ACTIVITY_LIMIT
        invariant
            i <= activity@.len(),
            i <= REPORT_ACTIVITY_LIMIT,
            recent@.len() == i,
            forall|k: int| 0 <= k < i ==> shows_activity(#[trigger] recent@[k], activity@[k]),
        decreases activity.len() - i,
    {
        let item = &activity[i];
        recent.push(
            ReportActivity {
                kind: copy_string(&item.kind),
                title: copy_string(&item.title),
                created_at: copy_string(&item.created_at),
                reversible: item.reversible,
            },
        );
        i = i + 1;
    }
    DiagnosticsReport {
        generated_at,
        application: string_from_chars(&chars_of("PicNest")),
        build,
        contains_paths: false,
        contains_keys: false,
        contains_images: false,
        telemetry_enabled: settings.telemetry_enabled,
        configured: settings.configured,
        source_count: settings.source_paths.len() as u64,
        locale: copy_string(&settings.locale),
        cloud_ai_enabled: settings.cloud_ai_enabled,
        api_key_configured: settings.api_key_configured,
        vision_model: copy_string(&settings.vision_model),
        embedding_model: copy_string(&settings.embedding_model),
        ai_batch_limit: settings.ai_batch_limit,
        stats: LibraryStats {
            total: stats.total,
            inbox: stats.inbox,
            favorites: stats.favorites,
            duplicates: stats.duplicates,
            missing: stats.missing,
            albums: stats.albums,
            storage_bytes: stats.storage_bytes,
        },
        storage,
        recent_activity: recent,
    }
}

/// The file a report is written to, for a compact UTC time stamp
/// (`YYYYmmdd-HHMMSS`).
pub fn diagnostics_file_name(stamp: &str) -> (out: String)
    ensures
        out@ == "PicNest-diagnostics-"@ + stamp@ + ".json"@,
{
    let mut v = chars_of("PicNest-diagnostics-");
    push_str(&mut v, stamp);
    push_str(&mut v, ".json");
    string_from_chars(&v)
}

} // verus!
