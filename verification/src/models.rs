//! The data that the library exchanges with the application, and the rules
//! that build settings.

use vstd::prelude::*;
use crate::paths::{join_name, spec_join};
use crate::error::AppError;
use crate::text::{chars_of, string_from_chars, trim_chars, trim_ws, CharClass};

verus! {

/// User settings of the library.
#[derive(Debug, Clone)]
pub struct AppSettings {
    pub configured: bool,
    pub library_path: String,
    pub source_paths: Vec<String>,
    /// Per-folder recursion choices: `(folder, recursive)` pairs, at most one
    /// per folder (`keys_unique`); every function here that builds settings
    /// keeps that so.
    pub source_recursive: Vec<(String, bool)>,
    pub locale: String,
    pub cloud_ai_enabled: bool,
    pub ai_base_url: String,
    pub vision_model: String,
    pub embedding_model: String,
    pub ai_batch_limit: u32,
    pub api_key_configured: bool,
    pub telemetry_enabled: bool,
}

/// Settings as the settings form submits them.
#[derive(Debug, Clone)]
pub struct SaveSettingsInput {
    pub configured: bool,
    pub library_path: String,
    pub source_paths: Vec<String>,
    pub source_recursive: Vec<(String, bool)>,
    pub locale: String,
    pub cloud_ai_enabled: bool,
    pub ai_base_url: String,
    pub vision_model: String,
    pub embedding_model: String,
    pub ai_batch_limit: u32,
    pub api_key_configured: bool,
    pub api_key: Option<String>,
    pub telemetry_enabled: bool,
}

/// Counts shown on the start page.
#[derive(Debug, Clone)]
pub struct LibraryStats {
    pub total: i64,
    pub inbox: i64,
    pub favorites: i64,
    pub duplicates: i64,
    pub missing: i64,
    pub albums: i64,
    pub storage_bytes: i64,
}

/// An album with its picture count.
#[derive(Debug, Clone)]
pub struct Album {
    pub id: i64,
    pub name: String,
    pub kind: String,
    pub count: i64,
    pub cover_thumbnail: Option<String>,
}

/// An entry of the activity log.
#[derive(Debug, Clone)]
pub struct ActivityItem {
    pub id: i64,
    pub kind: String,
    pub title: String,
    pub detail: String,
    pub created_at: String,
    pub reversible: bool,
}

/// Everything the window needs at start.
#[derive(Debug, Clone)]
pub struct BootstrapPayload {
    pub settings: AppSettings,
    pub stats: LibraryStats,
    pub albums: Vec<Album>,
    pub recent_activity: Vec<ActivityItem>,
    pub demo_mode: bool,
    pub recovery_jobs: Vec<RecoveryJob>,
}

/// A picture of the library, as listed.
#[derive(Debug, Clone)]
pub struct Asset {
    pub id: i64,
    pub filename: String,
    pub path: String,
    pub thumbnail_data_url: Option<String>,
    pub width: i64,
    pub height: i64,
    pub captured_at: String,
    pub imported_at: String,
    pub file_size: i64,
    pub source: String,
    pub category: String,
    pub favorite: bool,
    pub missing: bool,
    pub needs_organize: bool,
    pub duplicate_count: i64,
    pub similar_count: i64,
    pub content_hash: String,
    pub camera: Option<String>,
    pub location: Option<String>,
    pub description: Option<String>,
    pub ocr_text: Option<String>,
    pub tags: Vec<String>,
    pub album_ids: Vec<i64>,
    pub ai_analyzed: bool,
}

/// A request for one page of pictures.
#[derive(Debug, Clone)]
pub struct AssetQuery {
    pub view: String,
    pub search: Option<String>,
    pub limit: Option<u32>,
    pub cursor: Option<u32>,
    pub album_id: Option<i64>,
    pub date_from: Option<String>,
    pub date_to: Option<String>,
    pub category: Option<String>,
    pub source: Option<String>,
    pub location: Option<String>,
}

/// One page of pictures.
#[derive(Debug, Clone)]
pub struct AssetPage {
    pub items: Vec<Asset>,
    pub next_cursor: Option<u32>,
    pub total: i64,
}

/// Counters of a folder scan.
#[derive(Debug, Clone, PartialEq, Eq, Structural)]
pub struct ScanResult {
    pub discovered: u32,
    pub indexed: u32,
    pub duplicates: u32,
    pub unsupported: u32,
    pub failed: u32,
    pub skipped: u32,
    pub cancelled: bool,
}

/// One planned move.
#[derive(Debug, Clone)]
pub struct OrganizePlanItem {
    pub asset_id: i64,
    pub filename: String,
    pub source_path: String,
    pub target_path: String,
    pub reason: String,
    pub conflict: bool,
    pub bytes: i64,
}

/// A plan to archive pictures into the library folder.
#[derive(Debug, Clone)]
pub struct OrganizePlan {
    pub id: String,
    pub items: Vec<OrganizePlanItem>,
    pub total_bytes: i64,
    pub conflicts: i64,
    pub required_copy_bytes: i64,
    pub available_bytes: i64,
    pub disk_space_ok: bool,
}

/// What applying a plan did.
#[derive(Debug, Clone)]
pub struct OrganizeResult {
    pub job_id: String,
    pub moved: u32,
    pub failed: u32,
}

/// An interrupted or failed plan that can be resumed or rolled back.
#[derive(Debug, Clone)]
pub struct RecoveryJob {
    pub plan_id: String,
    pub moved: i64,
    pub remaining: i64,
    pub failed: i64,
    pub created_at: String,
}

/// Outcome of probing the AI service.
#[derive(Debug, Clone)]
pub struct ConnectionTestResult {
    pub ok: bool,
    pub latency_ms: u128,
    pub message: String,
}

/// Where a diagnostics file was written.
#[derive(Debug, Clone)]
pub struct DiagnosticsResult {
    pub path: String,
    pub bytes: u64,
}

/// What removing a source folder would touch.
#[derive(Debug, Clone, PartialEq, Eq, Structural)]
pub struct RemoveSourcePreviewEntry {
    pub monitored_count: usize,
    pub index_count: i64,
}

/// Removal preview, without and with the sub-folders that are sources themselves.
#[derive(Debug, Clone)]
pub struct RemoveSourcePreview {
    pub path: String,
    pub current: RemoveSourcePreviewEntry,
    pub with_subdirs: RemoveSourcePreviewEntry,
}

/// What removing source folders did.
#[derive(Debug, Clone)]
pub struct RemoveSourceResult {
    pub removed_paths: Vec<String>,
    pub removed_indexes: i64,
}

/// One file location of a picture.
#[derive(Debug, Clone)]
pub struct AssetLocation {
    pub id: i64,
    pub path: String,
    pub source: String,
    pub available: bool,
    pub needs_organize: bool,
    pub file_size: i64,
    pub modified_at: i64,
}

/// Connection parameters to probe the AI service with.
#[derive(Debug, Clone)]
pub struct AiConnectionInput {
    pub base_url: String,
    pub model: String,
    pub api_key: Option<String>,
}

/// The views of a list of strings.
pub open spec fn str_views(v: Seq<String>) -> Seq<Seq<char>> {
    v.map_values(|s: String| s@)
}

/// The view of recursion entries.
pub open spec fn entry_views(v: Seq<(String, bool)>) -> Seq<(Seq<char>, bool)> {
    v.map_values(|e: (String, bool)| (e.0@, e.1))
}

/// Whether a folder has an entry.
pub open spec fn has_key(entries: Seq<(Seq<char>, bool)>, key: Seq<char>) -> bool {
    exists|i: int| 0 <= i < entries.len() && (#[trigger] entries[i]).0 == key
}

/// The recursion choice recorded for a folder (the first entry for it).
pub open spec fn lookup(entries: Seq<(Seq<char>, bool)>, key: Seq<char>) -> Option<bool>
    decreases entries.len(),
{
    if entries.len() == 0 {
        None
    } else if entries[0].0 == key {
        Some(entries[0].1)
    } else {
        lookup(entries.drop_first(), key)
    }
}

/// No folder has two entries.
pub open spec fn keys_unique(entries: Seq<(Seq<char>, bool)>) -> bool {
    forall|i: int, j: int|
        0 <= i < entries.len() && 0 <= j < entries.len() && i != j ==> #[trigger] entries[i].0
            != #[trigger] entries[j].0
}

/// Entries after giving every listed folder without an entry the default
/// `true`, in the order of the list (`entry(path).or_insert(true)` for each path).
pub open spec fn add_default_entries(entries: Seq<(Seq<char>, bool)>, paths: Seq<Seq<char>>) -> Seq<
    (Seq<char>, bool),
>
    decreases paths.len(),
{
    if paths.len() == 0 {
        entries
    } else {
        let e = add_default_entries(entries, paths.drop_last());
        if has_key(e, paths.last()) {
            e
        } else {
            e.push((paths.last(), true))
        }
    }
}

/// Whether `key` has an entry.
fn find_entry(entries: &Vec<(String, bool)>, key: &String) -> (out: Option<bool>)
    ensures
        has_key(entry_views(entries@), key@) <==> out is Some,
        out == lookup(entry_views(entries@), key@),
{
    let ghost ev = entry_views(entries@);
    let mut i: usize = 0;
    assert(ev.skip(0) == ev);
    while i < entries.len()
        invariant
            i <= entries@.len(),
            ev == entry_views(entries@),
            forall|j: int| 0 <= j < i ==> ev[j].0 != key@,
            lookup(ev, key@) == lookup(ev.skip(i as int), key@),
        decreases entries.len() - i,
    {
        assert(ev.skip(i as int)[0] == ev[i as int]);
        if entries[i].0 == *key {
            assert(has_key(ev, key@)) by {
                assert(ev[i as int].0 == key@);
            }
            return Some(entries[i].1);
        }
        assert(ev.skip(i as int).drop_first() == ev.skip(i + 1));
        i = i + 1;
    }
    assert(!has_key(ev, key@));
    assert(ev.skip(i as int).len() == 0);
    None
}

/// Gives every listed folder without a recursion entry the default `true`.
pub fn with_default_recursion(entries: Vec<(String, bool)>, paths: &Vec<String>) -> (out: Vec<
    (String, bool),
>)
    ensures
        entry_views(out@) == add_default_entries(entry_views(entries@), str_views(paths@)),
{
    let mut out = entries;
    let mut i: usize = 0;
    while i < paths.len()
        invariant
            i <= paths@.len(),
            entry_views(out@) == add_default_entries(
                entry_views(entries@),
                str_views(paths@).take(i as int),
            ),
        decreases paths.len() - i,
    {
        let ghost pv = str_views(paths@).take(i + 1);
        assert(pv.drop_last() == str_views(paths@).take(i as int));
        assert(pv.last() == paths@[i as int]@);
        let path = paths[i].clone();
        if find_entry(&out, &path).is_none() {
            let ghost before = entry_views(out@);
            out.push((path, true));
            assert(entry_views(out@) == before.push((paths@[i as int]@, true)));
        }
        i = i + 1;
    }
    assert(str_views(paths@).take(paths@.len() as int) == str_views(paths@));
    out
}

/// The recursion choice for a folder, `true` when none is recorded.
pub open spec fn spec_recursive_flag(entries: Seq<(Seq<char>, bool)>, path: Seq<char>) -> bool {
    match lookup(entries, path) {
        Some(b) => b,
        None => true,
    }
}

/// Whether a source folder is scanned with its sub-folders (the default when unrecorded).
pub fn recursive_flag(entries: &Vec<(String, bool)>, path: &String) -> (b: bool)
    ensures
        b == spec_recursive_flag(entry_views(entries@), path@),
{
    match find_entry(entries, path) {
        Some(b) => b,
        None => true,
    }
}

/// `ai_batch_limit.clamp(1, 100)`.
pub open spec fn clamp_batch(n: u32) -> u32 {
    if n < 1 {
        1
    } else if n > 100 {
        100
    } else {
        n
    }
}

/// Settings stored from the settings form: the key itself is dropped, every
/// source folder gets a recursion entry (default `true`), and the AI batch
/// limit is clamped to 1..=100.
pub fn settings_from_input(input: SaveSettingsInput) -> (s: AppSettings)
    ensures
        s.configured == input.configured,
        s.library_path == input.library_path,
        s.source_paths == input.source_paths,
        entry_views(s.source_recursive@) == add_default_entries(
            entry_views(input.source_recursive@),
            str_views(input.source_paths@),
        ),
        s.locale == input.locale,
        s.cloud_ai_enabled == input.cloud_ai_enabled,
        s.ai_base_url == input.ai_base_url,
        s.vision_model == input.vision_model,
        s.embedding_model == input.embedding_model,
        s.ai_batch_limit == clamp_batch(input.ai_batch_limit),
        s.api_key_configured == input.api_key_configured,
        s.telemetry_enabled == input.telemetry_enabled,
        keys_unique(entry_views(input.source_recursive@)) ==> keys_unique(
            entry_views(s.source_recursive@),
        ),
{
    proof {
        law_default_entries_cover_sources(
            entry_views(input.source_recursive@),
            str_views(input.source_paths@),
            seq![],
        );
    }
    let source_recursive = with_default_recursion(input.source_recursive, &input.source_paths);
    let limit = if input.ai_batch_limit < 1 {
        1
    } else if input.ai_batch_limit > 100 {
        100
    } else {
        input.ai_batch_limit
    };
    AppSettings {
        configured: input.configured,
        library_path: input.library_path,
        source_paths: input.source_paths,
        source_recursive,
        locale: input.locale,
        cloud_ai_enabled: input.cloud_ai_enabled,
        ai_base_url: input.ai_base_url,
        vision_model: input.vision_model,
        embedding_model: input.embedding_model,
        ai_batch_limit: limit,
        api_key_configured: input.api_key_configured,
        telemetry_enabled: input.telemetry_enabled,
    }
}

/// The settings that saving the form stores: refused with `EmptyLibraryPath`
/// when the library folder is blank; otherwise the form's settings, marked as
/// configured, with `api_key_configured` telling whether a key is stored.
pub fn settings_for_save(input: SaveSettingsInput, api_key_configured: bool) -> (out: Result<
    AppSettings,
    AppError,
>)
    ensures
        trim_ws(input.library_path@).len() == 0 <==> out is Err,
        out matches Err(e) ==> e == AppError::EmptyLibraryPath,
        out matches Ok(s) ==> {
            &&& s.configured
            &&& s.api_key_configured == api_key_configured
            &&& s.library_path == input.library_path
            &&& s.source_paths == input.source_paths
            &&& entry_views(s.source_recursive@) == add_default_entries(
                entry_views(input.source_recursive@),
                str_views(input.source_paths@),
            )
            &&& s.locale == input.locale
            &&& s.cloud_ai_enabled == input.cloud_ai_enabled
            &&& s.ai_base_url == input.ai_base_url
            &&& s.vision_model == input.vision_model
            &&& s.embedding_model == input.embedding_model
            &&& s.ai_batch_limit == clamp_batch(input.ai_batch_limit)
            &&& s.telemetry_enabled == input.telemetry_enabled
            &&& keys_unique(entry_views(input.source_recursive@)) ==> keys_unique(
                entry_views(s.source_recursive@),
            )
        },
{
    let cs = chars_of(input.library_path.as_str());
    let t = trim_chars(&cs, CharClass::WhiteSpace);
    if t.len() == 0 {
        return Err(AppError::EmptyLibraryPath);
    }
    let mut settings = settings_from_input(input);
    settings.configured = true;
    settings.api_key_configured = api_key_configured;
    Ok(settings)
}

/// Stored settings as loaded: every source folder gets a recursion entry
/// (default `true`); nothing else changes.
pub fn normalize_loaded_settings(settings: AppSettings) -> (s: AppSettings)
    ensures
        entry_views(s.source_recursive@) == add_default_entries(
            entry_views(settings.source_recursive@),
            str_views(settings.source_paths@),
        ),
        s.source_paths == settings.source_paths,
        s.configured == settings.configured,
        s.library_path == settings.library_path,
        s.locale == settings.locale,
        s.cloud_ai_enabled == settings.cloud_ai_enabled,
        s.ai_base_url == settings.ai_base_url,
        s.vision_model == settings.vision_model,
        s.embedding_model == settings.embedding_model,
        s.ai_batch_limit == settings.ai_batch_limit,
        s.api_key_configured == settings.api_key_configured,
        s.telemetry_enabled == settings.telemetry_enabled,
        keys_unique(entry_views(settings.source_recursive@)) ==> keys_unique(
            entry_views(s.source_recursive@),
        ),
{
    proof {
        law_default_entries_cover_sources(
            entry_views(settings.source_recursive@),
            str_views(settings.source_paths@),
            seq![],
        );
    }
    let AppSettings {
        configured,
        library_path,
        source_paths,
        source_recursive,
        locale,
        cloud_ai_enabled,
        ai_base_url,
        vision_model,
        embedding_model,
        ai_batch_limit,
        api_key_configured,
        telemetry_enabled,
    } = settings;
    let entries = with_default_recursion(source_recursive, &source_paths);
    AppSettings {
        configured,
        library_path,
        source_paths,
        source_recursive: entries,
        locale,
        cloud_ai_enabled,
        ai_base_url,
        vision_model,
        embedding_model,
        ai_batch_limit,
        api_key_configured,
        telemetry_enabled,
    }
}

/// The library folder proposed before setup: `PicNest Library` inside the
/// user's Pictures folder, or inside `C:\Users\Public\Pictures` when the
/// system reports none.
pub open spec fn spec_default_library_path(pictures: Option<Seq<char>>) -> Seq<char> {
    let base = match pictures {
        Some(p) => p,
        None => "C:\\Users\\Public\\Pictures"@,
    };
    spec_join(base, "PicNest Library"@)
}

/// The source folders proposed before setup: the desktop and the downloads
/// folder, those that the system reports, in that order.
pub open spec fn spec_default_sources(desktop: Option<Seq<char>>, downloads: Option<Seq<char>>) -> Seq<
    Seq<char>,
> {
    let a: Seq<Seq<char>> = match desktop {
        Some(d) => seq![d],
        None => seq![],
    };
    let b: Seq<Seq<char>> = match downloads {
        Some(d) => seq![d],
        None => seq![],
    };
    a + b
}

/// Settings before the first setup, from the folders that the system reports.
pub fn default_settings(
    pictures: Option<String>,
    desktop: Option<String>,
    downloads: Option<String>,
) -> (s: AppSettings)
    ensures
        !s.configured,
        s.library_path@ == spec_default_library_path(
            match pictures {
                Some(p) => Some(p@),
                None => None,
            },
        ),
        str_views(s.source_paths@) == spec_default_sources(
            match desktop {
                Some(p) => Some(p@),
                None => None,
            },
            match downloads {
                Some(p) => Some(p@),
                None => None,
            },
        ),
        entry_views(s.source_recursive@) == add_default_entries(seq![], str_views(s.source_paths@)),
        keys_unique(entry_views(s.source_recursive@)),
        s.locale@ == "zh-CN"@,
        !s.cloud_ai_enabled,
        s.ai_base_url@ == "https://api.openai.com/v1"@,
        s.vision_model@ == "gpt-4.1-mini"@,
        s.embedding_model@ == "text-embedding-3-small"@,
        s.ai_batch_limit == 20,
        !s.api_key_configured,
        !s.telemetry_enabled,
{
    let base: Vec<char> = match &pictures {
        Some(p) => chars_of(p.as_str()),
        None => chars_of("C:\\Users\\Public\\Pictures"),
    };
    let name = chars_of("PicNest Library");
    let lib = join_name(&base, &name);
    let mut sources: Vec<String> = Vec::new();
    if let Some(d) = desktop {
        sources.push(d);
    }
    if let Some(d) = downloads {
        sources.push(d);
    }
    proof {
        law_default_entries_cover_sources(seq![], str_views(sources@), seq![]);
    }
    let empty: Vec<(String, bool)> = Vec::new();
    assert(entry_views(empty@) =~= seq![]);
    let entries = with_default_recursion(empty, &sources);
    AppSettings {
        configured: false,
        library_path: string_from_chars(&lib),
        source_paths: sources,
        source_recursive: entries,
        locale: String::from_str("zh-CN"),
        cloud_ai_enabled: false,
        ai_base_url: String::from_str("https://api.openai.com/v1"),
        vision_model: String::from_str("gpt-4.1-mini"),
        embedding_model: String::from_str("text-embedding-3-small"),
        ai_batch_limit: 20,
        api_key_configured: false,
        telemetry_enabled: false,
    }
}

/// After adding defaults, every listed folder has an entry, and a folder
/// that already had one keeps its choice.
pub proof fn law_default_entries_cover_sources(
    entries: Seq<(Seq<char>, bool)>,
    paths: Seq<Seq<char>>,
    key: Seq<char>,
)
    ensures
        paths.contains(key) ==> has_key(add_default_entries(entries, paths), key),
        lookup(entries, key) is Some ==> lookup(add_default_entries(entries, paths), key) == lookup(
            entries,
            key,
        ),
        lookup(entries, key) is None && paths.contains(key) ==> lookup(
            add_default_entries(entries, paths),
            key,
        ) == Some(true),
        lookup(entries, key) is None && !paths.contains(key) ==> lookup(
            add_default_entries(entries, paths),
            key,
        ) is None,
        keys_unique(entries) ==> keys_unique(add_default_entries(entries, paths)),
    decreases paths.len(),
{
    if paths.len() > 0 {
        let pd = paths.drop_last();
        let l = paths.last();
        let e = add_default_entries(entries, pd);
        let r = add_default_entries(entries, paths);
        law_default_entries_cover_sources(entries, pd, key);
        lemma_lookup_push(e, l, key);
        lemma_lookup_has_key(e, key);
        lemma_lookup_has_key(r, key);
        assert(paths.contains(key) <==> (pd.contains(key) || l == key)) by {
            if paths.contains(key) && l != key {
                let k = choose|k: int| 0 <= k < paths.len() && paths[k] == key;
                assert(pd[k] == key);
            }
            if pd.contains(key) {
                let k = choose|k: int| 0 <= k < pd.len() && pd[k] == key;
                assert(paths[k] == key);
            }
            if l == key {
                assert(paths[paths.len() - 1] == key);
            }
        }
        if !has_key(e, l) {
            let f = e.push((l, true));
            assert(r == f);
            if l == key {
                assert(f[e.len() as int].0 == key);
            }
            if keys_unique(e) {
                assert forall|i: int, j: int|
                    0 <= i < f.len() && 0 <= j < f.len() && i != j implies #[trigger] f[i].0
                    != #[trigger] f[j].0 by {
                    if i == e.len() {
                        assert(f[j] == e[j]);
                    } else if j == e.len() {
                        assert(f[i] == e[i]);
                    } else {
                        assert(f[i] == e[i] && f[j] == e[j]);
                    }
                }
            }
        } else {
            assert(r == e);
            if l == key {
                lemma_lookup_has_key(e, l);
            }
        }
    }
}

/// A lookup succeeds exactly when the key has an entry.
pub proof fn lemma_lookup_has_key(entries: Seq<(Seq<char>, bool)>, key: Seq<char>)
    ensures
        lookup(entries, key) is Some <==> has_key(entries, key),
    decreases entries.len(),
{
    if entries.len() > 0 {
        lemma_lookup_has_key(entries.drop_first(), key);
        if has_key(entries.drop_first(), key) {
            let i = choose|i: int|
                0 <= i < entries.drop_first().len() && (#[trigger] entries.drop_first()[i]).0
                    == key;
            assert(entries[i + 1].0 == key);
        }
        if has_key(entries, key) && entries[0].0 != key {
            let i = choose|i: int| 0 <= i < entries.len() && (#[trigger] entries[i]).0 == key;
            assert(entries.drop_first()[i - 1].0 == key);
        }
    }
}

/// Appending an entry does not change earlier lookups.
pub proof fn lemma_lookup_push(entries: Seq<(Seq<char>, bool)>, k: Seq<char>, key: Seq<char>)
    ensures
        lookup(entries, key) is Some ==> lookup(entries.push((k, true)), key) == lookup(
            entries,
            key,
        ),
        lookup(entries, key) is None && k == key ==> lookup(entries.push((k, true)), key) == Some(
            true,
        ),
    decreases entries.len(),
{
    if entries.len() > 0 {
        assert(entries.push((k, true)).drop_first() == entries.drop_first().push((k, true)));
        lemma_lookup_push(entries.drop_first(), k, key);
    } else {
        assert(entries.push((k, true))[0] == (k, true));
    }
}

} // verus!
