//! Monitored source folders: which files a folder covers, and what removing
//! a folder (optionally with the source folders beneath it) takes away.

use vstd::prelude::*;
use crate::error::AppError;
use crate::models::{
    entry_views, keys_unique, spec_recursive_flag, str_views, recursive_flag, AppSettings,
    RemoveSourcePreview, RemoveSourcePreviewEntry,
};
use crate::paths::{
    is_sep, normalized, path_starts_with, paths_equal, spec_normalized, spec_path_starts_with,
};
use crate::text::{
    chars_of, contains_char, push_decimal, push_str, slice_to_vec, starts_with_chars,
    starts_with_seq, string_from_chars, trim_start_by, trim_start_chars, CharClass,
};

verus! {

/// A monitored folder and whether its sub-folders are monitored too.
#[derive(Debug, Clone)]
pub struct SourceRule {
    pub path: String,
    pub recursive: bool,
}

/// The view of a list of rules.
pub open spec fn rule_views(v: Seq<SourceRule>) -> Seq<(Seq<char>, bool)> {
    v.map_values(|r: SourceRule| (r.path@, r.recursive))
}

/// The rules of a settings value: one per source folder, in order, with its
/// recorded recursion choice (default `true`).
pub open spec fn spec_source_rules(
    sources: Seq<Seq<char>>,
    entries: Seq<(Seq<char>, bool)>,
) -> Seq<(Seq<char>, bool)> {
    sources.map_values(|p: Seq<char>| (p, spec_recursive_flag(entries, p)))
}

/// The rules of the settings.
pub fn source_rules(settings: &AppSettings) -> (out: Vec<SourceRule>)
    ensures
        rule_views(out@) == spec_source_rules(
            str_views(settings.source_paths@),
            entry_views(settings.source_recursive@),
        ),
{
    let mut out: Vec<SourceRule> = Vec::new();
    let mut i: usize = 0;
    let ghost target = spec_source_rules(
        str_views(settings.source_paths@),
        entry_views(settings.source_recursive@),
    );
    while i < settings.source_paths.len()
        invariant
            i <= settings.source_paths@.len(),
            target == spec_source_rules(
                str_views(settings.source_paths@),
                entry_views(settings.source_recursive@),
            ),
            rule_views(out@) == target.take(i as int),
        decreases settings.source_paths.len() - i,
    {
        let path = settings.source_paths[i].clone();
        let recursive = recursive_flag(&settings.source_recursive, &path);
        let ghost before = rule_views(out@);
        assert(target[i as int] == (path@, recursive));
        out.push(SourceRule { path, recursive });
        assert(rule_views(out@) == before.push(target[i as int]));
        assert(target.take(i + 1) == target.take(i as int).push(target[i as int]));
        i = i + 1;
    }
    assert(target.take(i as int) == target);
    out
}

/// For a file that lies under `root`, whether it is directly inside `root`
/// (one component below it), comparing normalized texts.
pub open spec fn directly_inside(path: Seq<char>, root: Seq<char>) -> bool {
    let p = spec_normalized(path);
    let r = spec_normalized(root);
    let rest = if starts_with_seq(p, r) {
        p.skip(r.len() as int)
    } else {
        Seq::<char>::empty()
    };
    let t = trim_start_by(rest, CharClass::Separator);
    t.len() > 0 && !t.contains('\\') && !t.contains('/')
}

/// Whether a monitored folder covers a file: the file lies under it, and
/// for a non-recursive folder it lies directly inside.
pub open spec fn spec_path_in_scope(path: Seq<char>, root: Seq<char>, recursive: bool) -> bool {
    spec_path_starts_with(path, root) && (recursive || directly_inside(path, root))
}

/// Whether the folder `root` (recursive or not) covers `path`.
pub fn path_in_scope(path: &str, root: &str, recursive: bool) -> (b: bool)
    ensures
        b == spec_path_in_scope(path@, root@, recursive),
        path@ == root@ && recursive ==> b,
{
    if !path_starts_with(path, root) {
        return false;
    }
    if recursive {
        return true;
    }
    let p = chars_of(normalized(path).as_str());
    let r = chars_of(normalized(root).as_str());
    let rest: Vec<char> = if starts_with_chars(&p, &r) {
        slice_to_vec(&p, r.len(), p.len())
    } else {
        Vec::new()
    };
    assert(rest@ == (if starts_with_seq(p@, r@) {
        p@.skip(r@.len() as int)
    } else {
        Seq::<char>::empty()
    }));
    let t = trim_start_chars(&rest, CharClass::Separator);
    t.len() > 0 && !contains_char(&t, '\\') && !contains_char(&t, '/')
}

/// Whether removing `path` takes away the source folder `c`.
pub open spec fn removes_root(c: Seq<char>, path: Seq<char>, include_subdirs: bool) -> bool {
    spec_normalized(c) == spec_normalized(path) || (include_subdirs && spec_path_starts_with(c, path))
}

/// The source folders that removing `path` takes away, in order: the folder
/// itself and, with `include_subdirs`, every source folder beneath it.
pub open spec fn spec_removed_roots(sources: Seq<Seq<char>>, path: Seq<char>, include_subdirs: bool) -> Seq<
    Seq<char>,
>
    decreases sources.len(),
{
    if sources.len() == 0 {
        seq![]
    } else {
        let r = spec_removed_roots(sources.drop_last(), path, include_subdirs);
        if removes_root(sources.last(), path, include_subdirs) {
            r.push(sources.last())
        } else {
            r
        }
    }
}

/// Whether a folder is, once normalized, one of the listed folders.
pub open spec fn in_normalized(paths: Seq<Seq<char>>, x: Seq<char>) -> bool {
    exists|i: int| 0 <= i < paths.len() && spec_normalized(#[trigger] paths[i]) == spec_normalized(x)
}

/// The source folders that stay once `removed` is taken away, in order.
pub open spec fn spec_remaining_roots(sources: Seq<Seq<char>>, removed: Seq<Seq<char>>) -> Seq<
    Seq<char>,
>
    decreases sources.len(),
{
    if sources.len() == 0 {
        seq![]
    } else {
        let r = spec_remaining_roots(sources.drop_last(), removed);
        if !in_normalized(removed, sources.last()) {
            r.push(sources.last())
        } else {
            r
        }
    }
}

/// Rules of the settings whose folder is, once normalized, one of `paths`.
pub open spec fn keep_rules(rules: Seq<(Seq<char>, bool)>, paths: Seq<Seq<char>>) -> Seq<
    (Seq<char>, bool),
>
    decreases rules.len(),
{
    if rules.len() == 0 {
        seq![]
    } else {
        let r = keep_rules(rules.drop_last(), paths);
        if in_normalized(paths, rules.last().0) {
            r.push(rules.last())
        } else {
            r
        }
    }
}

/// Whether some rule covers the file.
pub open spec fn covered(rules: Seq<(Seq<char>, bool)>, path: Seq<char>) -> bool {
    exists|i: int| 0 <= i < rules.len() && spec_path_in_scope(path, (#[trigger] rules[i]).0, rules[i].1)
}

/// Whether removing sources drops the index entry of a file: a removed rule
/// covers it and no remaining rule does.
pub open spec fn dropped(
    removed: Seq<(Seq<char>, bool)>,
    remaining: Seq<(Seq<char>, bool)>,
    path: Seq<char>,
) -> bool {
    covered(removed, path) && !covered(remaining, path)
}

/// Number of files whose index entries removal drops.
pub open spec fn count_dropped(
    removed: Seq<(Seq<char>, bool)>,
    remaining: Seq<(Seq<char>, bool)>,
    paths: Seq<Seq<char>>,
) -> nat
    decreases paths.len(),
{
    if paths.len() == 0 {
        0
    } else {
        count_dropped(removed, remaining, paths.drop_last()) + if dropped(
            removed,
            remaining,
            paths.last(),
        ) {
            1nat
        } else {
            0nat
        }
    }
}

/// Rules of the folders removed by the request, and of those that stay.
pub open spec fn split_rules(settings_sources: Seq<Seq<char>>, entries: Seq<(Seq<char>, bool)>, removed: Seq<Seq<char>>) -> (Seq<(Seq<char>, bool)>, Seq<(Seq<char>, bool)>) {
    let rules = spec_source_rules(settings_sources, entries);
    (
        keep_rules(rules, removed),
        keep_rules(rules, spec_remaining_roots(settings_sources, removed)),
    )
}

/// Whether `path` is one of the monitored folders (ignoring case and trailing separators).
pub open spec fn spec_source_exists(sources: Seq<Seq<char>>, path: Seq<char>) -> bool {
    in_normalized(sources, path)
}

/// Refuses a folder that is not monitored.
pub fn ensure_source_exists(settings: &AppSettings, path: &str) -> (out: Result<(), AppError>)
    ensures
        out is Ok <==> spec_source_exists(str_views(settings.source_paths@), path@),
        out matches Err(e) ==> e == AppError::SourceNotMonitored,
{
    let ghost sv = str_views(settings.source_paths@);
    let mut i: usize = 0;
    while i < settings.source_paths.len()
        invariant
            i <= settings.source_paths@.len(),
            sv == str_views(settings.source_paths@),
            forall|j: int| 0 <= j < i ==> spec_normalized(sv[j]) != spec_normalized(path@),
        decreases settings.source_paths.len() - i,
    {
        if paths_equal(settings.source_paths[i].as_str(), path) {
            assert(spec_normalized(sv[i as int]) == spec_normalized(path@));
            return Ok(());
        }
        i = i + 1;
    }
    Err(AppError::SourceNotMonitored)
}

/// The folders that removing `path` takes away.
pub fn collect_removed_roots(settings: &AppSettings, path: &str, include_subdirs: bool) -> (out: Vec<
    String,
>)
    ensures
        str_views(out@) == spec_removed_roots(str_views(settings.source_paths@), path@, include_subdirs),
{
    let ghost sv = str_views(settings.source_paths@);
    let mut out: Vec<String> = Vec::new();
    let mut i: usize = 0;
    while i < settings.source_paths.len()
        invariant
            i <= settings.source_paths@.len(),
            sv == str_views(settings.source_paths@),
            str_views(out@) == spec_removed_roots(sv.take(i as int), path@, include_subdirs),
        decreases settings.source_paths.len() - i,
    {
        let c = &settings.source_paths[i];
        assert(sv.take(i + 1).drop_last() == sv.take(i as int));
        assert(sv.take(i + 1).last() == c@);
        let keep = paths_equal(c.as_str(), path) || (include_subdirs && path_starts_with(c.as_str(), path));
        let ghost before = str_views(out@);
        if keep {
            out.push(c.clone());
            assert(str_views(out@) == before.push(c@));
        }
        i = i + 1;
    }
    assert(sv.take(i as int) == sv);
    out
}

/// The normalized forms of the folders.
fn normalized_set(paths: &Vec<String>) -> (out: Vec<String>)
    ensures
        out@.len() == paths@.len(),
        forall|i: int| 0 <= i < out@.len() ==> (#[trigger] out@[i])@ == spec_normalized(paths@[i]@),
{
    let mut out: Vec<String> = Vec::new();
    let mut i: usize = 0;
    while i < paths.len()
        invariant
            i <= paths@.len(),
            out@.len() == i,
            forall|k: int| 0 <= k < i ==> (#[trigger] out@[k])@ == spec_normalized(paths@[k]@),
        decreases paths.len() - i,
    {
        out.push(normalized(paths[i].as_str()));
        i = i + 1;
    }
    out
}

/// Whether the normalized form `x` is one of the normalized folders.
fn set_contains(set: &Vec<String>, paths: Ghost<Seq<Seq<char>>>, x: &String, raw: Ghost<Seq<char>>) -> (b: bool)
    requires
        set@.len() == paths@.len(),
        forall|i: int| 0 <= i < set@.len() ==> (#[trigger] set@[i])@ == spec_normalized(paths@[i]),
        x@ == spec_normalized(raw@),
    ensures
        b == in_normalized(paths@, raw@),
{
    let mut i: usize = 0;
    while i < set.len()
        invariant
            i <= set@.len(),
            set@.len() == paths@.len(),
            forall|k: int| 0 <= k < set@.len() ==> (#[trigger] set@[k])@ == spec_normalized(paths@[k]),
            x@ == spec_normalized(raw@),
            forall|k: int| 0 <= k < i ==> spec_normalized(paths@[k]) != spec_normalized(raw@),
        decreases set.len() - i,
    {
        if set[i] == *x {
            assert(spec_normalized(paths@[i as int]) == spec_normalized(raw@));
            return true;
        }
        i = i + 1;
    }
    false
}

/// The rules of the folders listed in `paths`.
pub fn rules_for_paths(settings: &AppSettings, paths: &Vec<String>) -> (out: Vec<SourceRule>)
    ensures
        rule_views(out@) == keep_rules(
            spec_source_rules(str_views(settings.source_paths@), entry_views(settings.source_recursive@)),
            str_views(paths@),
        ),
{
    let set = normalized_set(paths);
    let rules = source_rules(settings);
    let ghost rv = rule_views(rules@);
    let mut out: Vec<SourceRule> = Vec::new();
    let mut i: usize = 0;
    while i < rules.len()
        invariant
            i <= rules@.len(),
            rv == rule_views(rules@),
            set@.len() == paths@.len(),
            forall|k: int| 0 <= k < set@.len() ==> (#[trigger] set@[k])@ == spec_normalized(paths@[k]@),
            rule_views(out@) == keep_rules(rv.take(i as int), str_views(paths@)),
        decreases rules.len() - i,
    {
        assert(rv.take(i + 1).drop_last() == rv.take(i as int));
        assert(rv.take(i + 1).last() == rv[i as int]);
        let key = normalized(rules[i].path.as_str());
        assert forall|k: int| 0 <= k < set@.len() implies (#[trigger] set@[k])@ == spec_normalized(
            str_views(paths@)[k],
        ) by {}
        if set_contains(&set, Ghost(str_views(paths@)), &key, Ghost(rules@[i as int].path@)) {
            out.push(SourceRule { path: rules[i].path.clone(), recursive: rules[i].recursive });
        }
        i = i + 1;
    }
    assert(rv.take(i as int) == rv);
    out
}

/// The folders that stay once `removed` is taken away.
fn remaining_roots(settings: &AppSettings, removed: &Vec<String>) -> (out: Vec<String>)
    ensures
        str_views(out@) == spec_remaining_roots(str_views(settings.source_paths@), str_views(removed@)),
{
    let set = normalized_set(removed);
    let ghost sv = str_views(settings.source_paths@);
    let mut out: Vec<String> = Vec::new();
    let mut i: usize = 0;
    while i < settings.source_paths.len()
        invariant
            i <= settings.source_paths@.len(),
            sv == str_views(settings.source_paths@),
            set@.len() == removed@.len(),
            forall|k: int| 0 <= k < set@.len() ==> (#[trigger] set@[k])@ == spec_normalized(removed@[k]@),
            str_views(out@) == spec_remaining_roots(sv.take(i as int), str_views(removed@)),
        decreases settings.source_paths.len() - i,
    {
        let c = &settings.source_paths[i];
        assert(sv.take(i + 1).drop_last() == sv.take(i as int));
        assert(sv.take(i + 1).last() == c@);
        let key = normalized(c.as_str());
        assert forall|k: int| 0 <= k < set@.len() implies (#[trigger] set@[k])@ == spec_normalized(
            str_views(removed@)[k],
        ) by {}
        let keep = !set_contains(&set, Ghost(str_views(removed@)), &key, Ghost(c@));
        let ghost before = str_views(out@);
        if keep {
            out.push(c.clone());
            assert(str_views(out@) == before.push(c@));
        }
        i = i + 1;
    }
    assert(sv.take(i as int) == sv);
    out
}

/// Whether some rule covers the file.
fn covered_by(rules: &Vec<SourceRule>, path: &str) -> (b: bool)
    ensures
        b == covered(rule_views(rules@), path@),
{
    let ghost rv = rule_views(rules@);
    let mut i: usize = 0;
    while i < rules.len()
        invariant
            i <= rules@.len(),
            rv == rule_views(rules@),
            forall|k: int| 0 <= k < i ==> !spec_path_in_scope(path@, (#[trigger] rv[k]).0, rv[k].1),
        decreases rules.len() - i,
    {
        if path_in_scope(path, rules[i].path.as_str(), rules[i].recursive) {
            assert(spec_path_in_scope(path@, rv[i as int].0, rv[i as int].1));
            return true;
        }
        i = i + 1;
    }
    false
}

/// Number of files whose index entries are dropped.
fn count_indexed_locations(
    paths: &Vec<String>,
    removed: &Vec<SourceRule>,
    remaining: &Vec<SourceRule>,
) -> (n: i64)
    requires
        paths@.len() <= 0x7fff_ffff_ffff_ffff,
    ensures
        n == count_dropped(rule_views(removed@), rule_views(remaining@), str_views(paths@)),
{
    let ghost pv = str_views(paths@);
    let mut n: i64 = 0;
    let mut i: usize = 0;
    while i < paths.len()
        invariant
            i <= paths@.len(),
            pv == str_views(paths@),
            n == count_dropped(rule_views(removed@), rule_views(remaining@), pv.take(i as int)),
            n <= i,
            paths@.len() <= 0x7fff_ffff_ffff_ffff,
        decreases paths.len() - i,
    {
        assert(pv.take(i + 1).drop_last() == pv.take(i as int));
        assert(pv.take(i + 1).last() == paths@[i as int]@);
        if covered_by(removed, paths[i].as_str()) && !covered_by(remaining, paths[i].as_str()) {
            n = n + 1;
        }
        i = i + 1;
    }
    assert(pv.take(i as int) == pv);
    n
}

/// What removing the folders `removed_paths` would drop from the index of
/// the files at `location_paths`.
pub open spec fn spec_preview_entry(
    sources: Seq<Seq<char>>,
    entries: Seq<(Seq<char>, bool)>,
    removed: Seq<Seq<char>>,
    location_paths: Seq<Seq<char>>,
) -> (nat, nat) {
    let (gone, kept) = split_rules(sources, entries, removed);
    (removed.len(), count_dropped(gone, kept, location_paths))
}

/// Preview of removing the folders `removed_paths`.
fn preview_entry(
    settings: &AppSettings,
    removed_paths: &Vec<String>,
    location_paths: &Vec<String>,
) -> (out: RemoveSourcePreviewEntry)
    requires
        location_paths@.len() <= 0x7fff_ffff_ffff_ffff,
    ensures
        (out.monitored_count as nat, out.index_count as nat) == spec_preview_entry(
            str_views(settings.source_paths@),
            entry_views(settings.source_recursive@),
            str_views(removed_paths@),
            str_views(location_paths@),
        ),
        out.index_count >= 0,
{
    let removed_rules = rules_for_paths(settings, removed_paths);
    let remaining = remaining_roots(settings, removed_paths);
    let remaining_rules = rules_for_paths(settings, &remaining);
    let n = count_indexed_locations(location_paths, &removed_rules, &remaining_rules);
    RemoveSourcePreviewEntry { monitored_count: removed_paths.len(), index_count: n }
}

/// Preview of removing a source folder, without and with the source folders
/// beneath it, given the paths of all indexed files. Fails when the folder is
/// not monitored.
pub fn preview_remove(settings: &AppSettings, path: &str, location_paths: &Vec<String>) -> (out:
    Result<RemoveSourcePreview, AppError>)
    requires
        location_paths@.len() <= 0x7fff_ffff_ffff_ffff,
    ensures
        out is Ok <==> spec_source_exists(str_views(settings.source_paths@), path@),
        out matches Err(e) ==> e == AppError::SourceNotMonitored,
        out matches Ok(p) ==> {
            &&& p.path@ == path@
            &&& (p.current.monitored_count as nat, p.current.index_count as nat)
                == spec_preview_entry(
                str_views(settings.source_paths@),
                entry_views(settings.source_recursive@),
                spec_removed_roots(str_views(settings.source_paths@), path@, false),
                str_views(location_paths@),
            )
            &&& (p.with_subdirs.monitored_count as nat, p.with_subdirs.index_count as nat)
                == spec_preview_entry(
                str_views(settings.source_paths@),
                entry_views(settings.source_recursive@),
                spec_removed_roots(str_views(settings.source_paths@), path@, true),
                str_views(location_paths@),
            )
            &&& p.current.index_count >= 0
            &&& p.with_subdirs.index_count >= 0
        },
{
    ensure_source_exists(settings, path)?;
    let current_paths = collect_removed_roots(settings, path, false);
    let with_subdirs = collect_removed_roots(settings, path, true);
    let current = preview_entry(settings, &current_paths, location_paths);
    let with_subdirs = preview_entry(settings, &with_subdirs, location_paths);
    Ok(RemoveSourcePreview { path: String::from_str(path), current, with_subdirs })
}

/// An indexed file location.
#[derive(Debug, Clone)]
pub struct LocationRow {
    pub id: i64,
    pub asset_id: i64,
    pub path: String,
}

/// The view of location rows.
pub open spec fn row_views(v: Seq<LocationRow>) -> Seq<(int, int, Seq<char>)> {
    v.map_values(|r: LocationRow| (r.id as int, r.asset_id as int, r.path@))
}

/// The ids of the rows whose index entries removal drops, in order.
pub open spec fn dropped_ids(
    gone: Seq<(Seq<char>, bool)>,
    kept: Seq<(Seq<char>, bool)>,
    rows: Seq<(int, int, Seq<char>)>,
) -> Seq<int>
    decreases rows.len(),
{
    if rows.len() == 0 {
        seq![]
    } else {
        let r = dropped_ids(gone, kept, rows.drop_last());
        if dropped(gone, kept, rows.last().2) {
            r.push(rows.last().0)
        } else {
            r
        }
    }
}

/// The distinct asset ids of the rows whose index entries removal drops, in
/// order of first appearance.
pub open spec fn affected_assets(
    gone: Seq<(Seq<char>, bool)>,
    kept: Seq<(Seq<char>, bool)>,
    rows: Seq<(int, int, Seq<char>)>,
) -> Seq<int>
    decreases rows.len(),
{
    if rows.len() == 0 {
        seq![]
    } else {
        let r = affected_assets(gone, kept, rows.drop_last());
        if dropped(gone, kept, rows.last().2) && !r.contains(rows.last().1) {
            r.push(rows.last().1)
        } else {
            r
        }
    }
}

/// Recursion entries whose folder is not one of `removed`, in order.
pub open spec fn retained_entries(entries: Seq<(Seq<char>, bool)>, removed: Seq<Seq<char>>) -> Seq<
    (Seq<char>, bool),
>
    decreases entries.len(),
{
    if entries.len() == 0 {
        seq![]
    } else {
        let r = retained_entries(entries.drop_last(), removed);
        if !in_normalized(removed, entries.last().0) {
            r.push(entries.last())
        } else {
            r
        }
    }
}

/// The activity note written after a removal.
pub open spec fn spec_removal_detail(folders: nat, indexes: nat) -> Seq<char> {
    "移除了 "@ + crate::text::decimal(folders) + " 个监控目录，清理 "@ + crate::text::decimal(indexes)
        + " 条本地索引"@
}

/// Every entry kept is one of the given entries, so folders that were
/// distinct stay distinct.
pub proof fn law_retained_entries_stay_unique(entries: Seq<(Seq<char>, bool)>, removed: Seq<Seq<char>>)
    ensures
        forall|k: int|
            0 <= k < retained_entries(entries, removed).len() ==> exists|i: int|
                0 <= i < entries.len() && entries[i] == #[trigger] retained_entries(
                    entries,
                    removed,
                )[k],
        keys_unique(entries) ==> keys_unique(retained_entries(entries, removed)),
    decreases entries.len(),
{
    if entries.len() > 0 {
        let d = entries.drop_last();
        let r = retained_entries(d, removed);
        let out = retained_entries(entries, removed);
        law_retained_entries_stay_unique(d, removed);
        assert forall|k: int| 0 <= k < r.len() implies exists|i: int|
            0 <= i < entries.len() - 1 && entries[i] == #[trigger] r[k] by {
            let i = choose|i: int| 0 <= i < d.len() && d[i] == r[k];
            assert(entries[i] == d[i]);
        }
        if !in_normalized(removed, entries.last().0) {
            assert(out == r.push(entries.last()));
            assert forall|k: int| 0 <= k < out.len() implies exists|i: int|
                0 <= i < entries.len() && entries[i] == #[trigger] out[k] by {
                if k == r.len() {
                    assert(entries[entries.len() - 1] == out[k]);
                } else {
                    assert(out[k] == r[k]);
                }
            }
            if keys_unique(entries) {
                assert(keys_unique(d)) by {
                    assert forall|i: int, j: int|
                        0 <= i < d.len() && 0 <= j < d.len() && i != j implies #[trigger] d[i].0
                        != #[trigger] d[j].0 by {
                        assert(d[i] == entries[i] && d[j] == entries[j]);
                    }
                }
                assert forall|i: int, j: int|
                    0 <= i < out.len() && 0 <= j < out.len() && i != j implies #[trigger] out[i].0
                    != #[trigger] out[j].0 by {
                    if i == r.len() {
                        let a = choose|a: int| 0 <= a < entries.len() - 1 && entries[a] == r[j];
                        assert(out[j] == r[j]);
                        assert(entries[a].0 != entries[entries.len() - 1].0);
                    } else if j == r.len() {
                        let a = choose|a: int| 0 <= a < entries.len() - 1 && entries[a] == r[i];
                        assert(out[i] == r[i]);
                        assert(entries[a].0 != entries[entries.len() - 1].0);
                    } else {
                        assert(out[i] == r[i] && out[j] == r[j]);
                    }
                }
            }
        } else {
            assert(out == r);
            if keys_unique(entries) {
                assert(keys_unique(d)) by {
                    assert forall|i: int, j: int|
                        0 <= i < d.len() && 0 <= j < d.len() && i != j implies #[trigger] d[i].0
                        != #[trigger] d[j].0 by {
                        assert(d[i] == entries[i] && d[j] == entries[j]);
                    }
                }
            }
        }
    }
}

/// What removing source folders changes: the folders taken away, the index
/// entries to delete, the pictures whose search rows must be refreshed or
/// removed, the settings that remain, and the activity note.
#[derive(Debug)]
pub struct SourceRemovalPlan {
    pub removed_paths: Vec<String>,
    pub deleted_locations: Vec<i64>,
    pub affected_assets: Vec<i64>,
    pub source_paths: Vec<String>,
    pub source_recursive: Vec<(String, bool)>,
    pub activity_detail: String,
}

/// Plans the removal of a source folder (and, with `include_subdirs`, the
/// source folders beneath it) over the indexed locations `rows`. A location
/// is deleted when a removed folder covers it and no remaining folder does.
/// Fails when the folder is not monitored.
pub fn plan_source_removal(
    settings: &AppSettings,
    path: &str,
    include_subdirs: bool,
    rows: &Vec<LocationRow>,
) -> (out: Result<SourceRemovalPlan, AppError>)
    ensures
        out is Ok <==> spec_source_exists(str_views(settings.source_paths@), path@),
        out matches Err(e) ==> e == AppError::SourceNotMonitored,
        out matches Ok(plan) ==> {
            let sources = str_views(settings.source_paths@);
            let entries = entry_views(settings.source_recursive@);
            let removed = spec_removed_roots(sources, path@, include_subdirs);
            let (gone, kept) = split_rules(sources, entries, removed);
            &&& str_views(plan.removed_paths@) == removed
            &&& plan.deleted_locations@.map_values(|x: i64| x as int) == dropped_ids(
                gone,
                kept,
                row_views(rows@),
            )
            &&& plan.affected_assets@.map_values(|x: i64| x as int) == affected_assets(
                gone,
                kept,
                row_views(rows@),
            )
            &&& str_views(plan.source_paths@) == spec_remaining_roots(sources, removed)
            &&& entry_views(plan.source_recursive@) == retained_entries(entries, removed)
            &&& keys_unique(entries) ==> keys_unique(entry_views(plan.source_recursive@))
            &&& plan.activity_detail@ == spec_removal_detail(
                plan.removed_paths@.len(),
                plan.deleted_locations@.len(),
            )
        },
{
    ensure_source_exists(settings, path)?;
    let removed_paths = collect_removed_roots(settings, path, include_subdirs);
    let removed_rules = rules_for_paths(settings, &removed_paths);
    let remaining = remaining_roots(settings, &removed_paths);
    let remaining_rules = rules_for_paths(settings, &remaining);
    let ghost gone = rule_views(removed_rules@);
    let ghost kept = rule_views(remaining_rules@);
    let ghost rv = row_views(rows@);
    let mut deleted: Vec<i64> = Vec::new();
    let mut assets: Vec<i64> = Vec::new();
    let mut i: usize = 0;
    while i < rows.len()
        invariant
            i <= rows@.len(),
            rv == row_views(rows@),
            gone == rule_views(removed_rules@),
            kept == rule_views(remaining_rules@),
            deleted@.map_values(|x: i64| x as int) == dropped_ids(gone, kept, rv.take(i as int)),
            assets@.map_values(|x: i64| x as int) == affected_assets(gone, kept, rv.take(i as int)),
        decreases rows.len() - i,
    {
        assert(rv.take(i + 1).drop_last() == rv.take(i as int));
        assert(rv.take(i + 1).last() == rv[i as int]);
        let row = &rows[i];
        if covered_by(&removed_rules, row.path.as_str()) && !covered_by(
            &remaining_rules,
            row.path.as_str(),
        ) {
            let ghost d0 = deleted@.map_values(|x: i64| x as int);
            deleted.push(row.id);
            assert(deleted@.map_values(|x: i64| x as int) == d0.push(row.id as int));
            let ghost a0 = assets@.map_values(|x: i64| x as int);
            if !vec_contains_i64(&assets, row.asset_id) {
                assert(!a0.contains(row.asset_id as int)) by {
                    if a0.contains(row.asset_id as int) {
                        let k = choose|k: int| 0 <= k < a0.len() && a0[k] == row.asset_id as int;
                        assert(assets@[k] == row.asset_id);
                    }
                }
                assets.push(row.asset_id);
                assert(assets@.map_values(|x: i64| x as int) == a0.push(row.asset_id as int));
            } else {
                assert(a0.contains(row.asset_id as int)) by {
                    let k = choose|k: int| 0 <= k < assets@.len() && assets@[k] == row.asset_id;
                    assert(a0[k] == row.asset_id as int);
                }
            }
        }
        i = i + 1;
    }
    assert(rv.take(i as int) == rv);
    let entries = retain_entries(&settings.source_recursive, &removed_paths);
    proof {
        law_retained_entries_stay_unique(entry_views(settings.source_recursive@), str_views(removed_paths@));
    }
    let mut detail: Vec<char> = Vec::new();
    push_str(&mut detail, "移除了 ");
    push_decimal(&mut detail, removed_paths.len() as u64);
    push_str(&mut detail, " 个监控目录，清理 ");
    push_decimal(&mut detail, deleted.len() as u64);
    push_str(&mut detail, " 条本地索引");
    assert(detail@ == spec_removal_detail(removed_paths@.len(), deleted@.len()));
    Ok(SourceRemovalPlan {
        removed_paths,
        deleted_locations: deleted,
        affected_assets: assets,
        source_paths: remaining,
        source_recursive: entries,
        activity_detail: string_from_chars(&detail),
    })
}

/// Whether `x` is in `v`.
pub fn vec_contains_i64(v: &Vec<i64>, x: i64) -> (b: bool)
    ensures
        b == v@.contains(x),
{
    let mut i: usize = 0;
    while i < v.len()
        invariant
            i <= v@.len(),
            forall|k: int| 0 <= k < i ==> v@[k] != x,
        decreases v.len() - i,
    {
        if v[i] == x {
            assert(v@[i as int] == x);
            return true;
        }
        i = i + 1;
    }
    false
}

/// Recursion entries whose folder is not one of `removed`.
fn retain_entries(entries: &Vec<(String, bool)>, removed: &Vec<String>) -> (out: Vec<(String, bool)>)
    ensures
        entry_views(out@) == retained_entries(entry_views(entries@), str_views(removed@)),
{
    let set = normalized_set(removed);
    let ghost ev = entry_views(entries@);
    let mut out: Vec<(String, bool)> = Vec::new();
    let mut i: usize = 0;
    while i < entries.len()
        invariant
            i <= entries@.len(),
            ev == entry_views(entries@),
            set@.len() == removed@.len(),
            forall|k: int| 0 <= k < set@.len() ==> (#[trigger] set@[k])@ == spec_normalized(removed@[k]@),
            entry_views(out@) == retained_entries(ev.take(i as int), str_views(removed@)),
        decreases entries.len() - i,
    {
        assert(ev.take(i + 1).drop_last() == ev.take(i as int));
        assert(ev.take(i + 1).last() == ev[i as int]);
        let key = normalized(entries[i].0.as_str());
        assert forall|k: int| 0 <= k < set@.len() implies (#[trigger] set@[k])@ == spec_normalized(
            str_views(removed@)[k],
        ) by {}
        if !set_contains(&set, Ghost(str_views(removed@)), &key, Ghost(entries@[i as int].0@)) {
            let ghost before = entry_views(out@);
            out.push((entries[i].0.clone(), entries[i].1));
            assert(entry_views(out@) == before.push(ev[i as int]));
        }
        i = i + 1;
    }
    assert(ev.take(i as int) == ev);
    out
}

/// The paths of location rows.
pub open spec fn row_paths(rows: Seq<(int, int, Seq<char>)>) -> Seq<Seq<char>> {
    rows.map_values(|r: (int, int, Seq<char>)| r.2)
}

proof fn lemma_count_matches_ids(
    gone: Seq<(Seq<char>, bool)>,
    kept: Seq<(Seq<char>, bool)>,
    rows: Seq<(int, int, Seq<char>)>,
)
    ensures
        count_dropped(gone, kept, row_paths(rows)) == dropped_ids(gone, kept, rows).len(),
    decreases rows.len(),
{
    if rows.len() > 0 {
        lemma_count_matches_ids(gone, kept, rows.drop_last());
        assert(row_paths(rows).drop_last() == row_paths(rows.drop_last()));
        assert(row_paths(rows).last() == rows.last().2);
    }
}

/// The removal preview predicts the removal: for the same folder and the
/// same choice about sub-folders, it counts exactly the folders that the
/// removal takes away and the index entries that it deletes.
pub proof fn law_preview_predicts_removal(
    sources: Seq<Seq<char>>,
    entries: Seq<(Seq<char>, bool)>,
    path: Seq<char>,
    include_subdirs: bool,
    rows: Seq<(int, int, Seq<char>)>,
)
    ensures
        ({
            let removed = spec_removed_roots(sources, path, include_subdirs);
            let (gone, kept) = split_rules(sources, entries, removed);
            spec_preview_entry(sources, entries, removed, row_paths(rows)) == (
                removed.len(),
                dropped_ids(gone, kept, rows).len(),
            )
        }),
{
    let removed = spec_removed_roots(sources, path, include_subdirs);
    let (gone, kept) = split_rules(sources, entries, removed);
    lemma_count_matches_ids(gone, kept, rows);
}

/// Removal never deletes an index entry that a remaining folder still
/// covers (location ids being unique, as the database keys them).
pub proof fn law_removal_keeps_covered_locations(
    gone: Seq<(Seq<char>, bool)>,
    kept: Seq<(Seq<char>, bool)>,
    rows: Seq<(int, int, Seq<char>)>,
    k: int,
)
    requires
        0 <= k < rows.len(),
        forall|i: int, j: int| 0 <= i < rows.len() && 0 <= j < rows.len() && i != j ==> #[trigger] rows[i].0 != #[trigger] rows[j].0,
        covered(kept, rows[k].2),
    ensures
        !dropped_ids(gone, kept, rows).contains(rows[k].0),
{
    if dropped_ids(gone, kept, rows).contains(rows[k].0) {
        lemma_dropped_ids_origin(gone, kept, rows, rows[k].0);
        let j = choose|j: int|
            0 <= j < rows.len() && rows[j].0 == rows[k].0 && dropped(gone, kept, rows[j].2);
        assert(j == k);
    }
}

/// Every deleted index entry is covered by a removed folder and by no
/// remaining folder.
pub proof fn lemma_dropped_ids_origin(
    gone: Seq<(Seq<char>, bool)>,
    kept: Seq<(Seq<char>, bool)>,
    rows: Seq<(int, int, Seq<char>)>,
    id: int,
)
    requires
        dropped_ids(gone, kept, rows).contains(id),
    ensures
        exists|j: int| 0 <= j < rows.len() && rows[j].0 == id && dropped(gone, kept, rows[j].2),
    decreases rows.len(),
{
    let r = dropped_ids(gone, kept, rows.drop_last());
    if r.contains(id) {
        lemma_dropped_ids_origin(gone, kept, rows.drop_last(), id);
        let j = choose|j: int|
            0 <= j < rows.drop_last().len() && rows.drop_last()[j].0 == id && dropped(
                gone,
                kept,
                rows.drop_last()[j].2,
            );
        assert(rows[j] == rows.drop_last()[j]);
    } else {
        let last = rows.len() - 1;
        assert(rows[last] == rows.last());
        if !dropped(gone, kept, rows.last().2) {
            assert(dropped_ids(gone, kept, rows) == r);
        }
    }
}

/// A non-recursive folder covers only what the same folder covers recursively.
pub proof fn law_scope_monotone(path: Seq<char>, root: Seq<char>)
    ensures
        spec_path_in_scope(path, root, false) ==> spec_path_in_scope(path, root, true),
        spec_path_in_scope(path, root, true) == spec_path_starts_with(path, root),
{
}

/// No folder that stays after a removal is one of the removed folders.
pub proof fn law_remaining_excludes_removed(sources: Seq<Seq<char>>, removed: Seq<Seq<char>>, i: int)
    requires
        0 <= i < spec_remaining_roots(sources, removed).len(),
    ensures
        !in_normalized(removed, spec_remaining_roots(sources, removed)[i]),
    decreases sources.len(),
{
    let r = spec_remaining_roots(sources.drop_last(), removed);
    if i < r.len() {
        law_remaining_excludes_removed(sources.drop_last(), removed, i);
        assert(spec_remaining_roots(sources, removed)[i] == r[i]);
    }
}

/// Removing a folder without its sub-folders takes away a subset of what
/// removing it with them does.
pub proof fn law_removed_roots_grow_with_subdirs(sources: Seq<Seq<char>>, path: Seq<char>, c: Seq<char>)
    ensures
        spec_removed_roots(sources, path, false).contains(c) ==> spec_removed_roots(sources, path, true).contains(c),
    decreases sources.len(),
{
    if sources.len() > 0 {
        law_removed_roots_grow_with_subdirs(sources.drop_last(), path, c);
        let a = spec_removed_roots(sources.drop_last(), path, false);
        let b = spec_removed_roots(sources.drop_last(), path, true);
        if spec_removed_roots(sources, path, false).contains(c) {
            if a.contains(c) {
                let k = choose|k: int| 0 <= k < b.len() && b[k] == c;
                let bb = spec_removed_roots(sources, path, true);
                assert(bb[k] == b[k]);
            } else {
                let bb = spec_removed_roots(sources, path, true);
                assert(bb[bb.len() - 1] == sources.last());
                let aa = spec_removed_roots(sources, path, false);
                let k = choose|k: int| 0 <= k < aa.len() && aa[k] == c;
                assert(k == aa.len() - 1);
            }
        }
    }
}

} // verus!
