use picnest::diagnostics::{
    diagnostics_file_name, diagnostics_report, thumbnail_totals, BuildInfo, StorageFacts,
    ThumbnailTotals,
};
use picnest::images::{cache_image, cache_side, difference_hash, image_facts, upload_preview};
use picnest::metadata::{captured_at, exif_summary, exif_wall_time};
use picnest::models::{default_settings, ActivityItem, AssetQuery, LibraryStats, ScanResult};
use picnest::query::{
    build_asset_query, next_cursor, parse_album_ids, AlbumInfo, SqlValue, ALBUM_CLAUSE,
    FAVORITE_CLAUSE, INBOX_CLAUSE, NOTHING_CLAUSE, OCR_CLAUSE,
};
use picnest::scan::{
    missing_locations, new_scan_result, record_scan_event, scan_summary, unseen_locations,
    ScanEvent, SeenRow,
};
use picnest::sources::LocationRow;

fn query(view: &str) -> AssetQuery {
    AssetQuery {
        view: view.to_string(),
        search: None,
        limit: None,
        cursor: None,
        album_id: None,
        date_from: None,
        date_to: None,
        category: None,
        source: None,
        location: None,
    }
}

#[test]
fn plain_listing_has_no_conditions() {
    let plan = build_asset_query(&query("all"), &None);
    assert_eq!(plan.count_sql, "SELECT COUNT(*) FROM assets a");
    assert!(plan.count_values.is_empty());
    assert!(plan.select_sql.ends_with("ORDER BY datetime(a.captured_at) DESC, a.id DESC LIMIT ? OFFSET ?"));
    assert_eq!(plan.select_values, vec![SqlValue::Integer(200), SqlValue::Integer(0)]);
    assert_eq!(plan.limit, 200);
}

#[test]
fn listing_views_albums_and_fields() {
    let mut q = query("inbox");
    q.album_id = Some(7);
    q.category = Some("screenshot".to_string());
    q.date_to = Some("   ".to_string());
    q.limit = Some(0);
    q.cursor = Some(40);
    let manual = Some(AlbumInfo { kind: "manual".to_string(), rule_json: None });
    let plan = build_asset_query(&q, &manual);
    assert_eq!(
        plan.count_sql,
        format!("SELECT COUNT(*) FROM assets a WHERE {INBOX_CLAUSE} AND {ALBUM_CLAUSE} AND a.category = ?")
    );
    assert_eq!(
        plan.count_values,
        vec![SqlValue::Integer(7), SqlValue::Text("screenshot".to_string())]
    );
    assert_eq!(plan.limit, 1);
    assert_eq!(plan.offset, 40);

    let smart = Some(AlbumInfo {
        kind: "smart".to_string(),
        rule_json: Some("{\"hasOcr\":true,\"favorite\":true}".to_string()),
    });
    let mut q = query("all");
    q.album_id = Some(1);
    let plan = build_asset_query(&q, &smart);
    assert_eq!(
        plan.count_sql,
        format!("SELECT COUNT(*) FROM assets a WHERE {OCR_CLAUSE} AND {FAVORITE_CLAUSE}")
    );
    let unknown = build_asset_query(&q, &None);
    assert_eq!(unknown.count_sql, format!("SELECT COUNT(*) FROM assets a WHERE {NOTHING_CLAUSE}"));
}

#[test]
fn searches_rank_by_full_text_terms() {
    let mut q = query("all");
    q.search = Some("  Docker  ".to_string());
    q.limit = Some(900);
    let plan = build_asset_query(&q, &None);
    assert!(plan.count_sql.contains("asset_search MATCH ?"));
    assert_eq!(plan.count_values.len(), 6);
    assert_eq!(plan.count_values[0], SqlValue::Text("\"Docker\"*".to_string()));
    assert_eq!(plan.count_values[1], SqlValue::Text("%docker%".to_string()));
    // The ranking term comes before the page bounds.
    assert_eq!(plan.select_values.len(), 9);
    assert_eq!(plan.select_values[6], SqlValue::Text("\"Docker\"*".to_string()));
    assert_eq!(plan.select_values[7], SqlValue::Integer(500));
    assert!(plan.select_sql.contains("bm25"));
    // Without terms, only the LIKE conditions remain.
    q.search = Some("!!!".to_string());
    let plain = build_asset_query(&q, &None);
    assert!(!plain.count_sql.contains("MATCH"));
    assert_eq!(plain.count_values.len(), 5);
}

#[test]
fn page_cursors_and_album_lists() {
    assert_eq!(next_cursor(0, 200, 450), Some(200));
    assert_eq!(next_cursor(400, 50, 450), None);
    assert_eq!(next_cursor(0, 0, 0), None);
    assert_eq!(parse_album_ids("1,2,x,,30"), vec![1, 2, 30]);
    assert_eq!(parse_album_ids(""), Vec::<i64>::new());
    assert_eq!(parse_album_ids("-4, 5"), vec![-4]);
}

#[test]
fn scan_counters_follow_events() {
    let mut r = new_scan_result();
    for e in [
        ScanEvent::Skipped,
        ScanEvent::NotAnImage,
        ScanEvent::Indexed { duplicate: false },
        ScanEvent::Indexed { duplicate: true },
        ScanEvent::Unchanged,
        ScanEvent::StampFailed,
        ScanEvent::EntryError,
        ScanEvent::IndexFailed,
        ScanEvent::RootMissing,
    ] {
        record_scan_event(&mut r, e);
    }
    assert_eq!(
        r,
        ScanResult {
            discovered: 5,
            indexed: 3,
            duplicates: 1,
            unsupported: 1,
            failed: 4,
            skipped: 1,
            cancelled: false,
        }
    );
    assert_eq!(scan_summary(&r), "发现 5 张图片，索引 3 张，跳过 1 张未变化文件，4 张需要复查");
    record_scan_event(&mut r, ScanEvent::Cancelled);
    assert!(r.cancelled);
    assert!(scan_summary(&r).ends_with("，扫描已取消"));
}

fn seen(id: i64, asset_id: i64, path: &str, at: &str) -> SeenRow {
    SeenRow { id, asset_id, path: path.to_string(), last_seen_at: at.to_string() }
}

#[test]
fn unseen_and_missing_entries() {
    let rows = vec![
        seen(1, 10, r"D:\src\a.jpg", "t2"),
        seen(2, 10, r"D:\src\b.jpg", "t1"),
        seen(3, 11, r"D:\src\sub\c.jpg", "t1"),
        seen(4, 12, r"D:\other\d.jpg", "t1"),
    ];
    assert_eq!(unseen_locations(&rows, r"D:\src", "t2"), (vec![2, 3], vec![10, 11]));
    let locations = vec![
        LocationRow { id: 1, asset_id: 10, path: r"D:\src\a.jpg".to_string() },
        LocationRow { id: 2, asset_id: 10, path: r"D:\src\sub\b.jpg".to_string() },
        LocationRow { id: 3, asset_id: 11, path: r"D:\srcx\c.jpg".to_string() },
    ];
    assert_eq!(missing_locations(&locations, r"D:\src\a.jpg"), (vec![1], vec![10]));
    assert_eq!(missing_locations(&locations, r"D:\src"), (vec![1, 2], vec![10]));
}

fn activity(i: i64) -> ActivityItem {
    ActivityItem {
        id: i,
        kind: "scan".to_string(),
        title: format!("title {i}"),
        detail: r"D:\private\path".to_string(),
        created_at: "2026-01-01T00:00:00Z".to_string(),
        reversible: i % 2 == 0,
    }
}

#[test]
fn diagnostics_reports_leave_out_private_data() {
    let mut settings = default_settings(None, Some(r"C:\Desktop".to_string()), None);
    settings.telemetry_enabled = true;
    let stats = LibraryStats {
        total: 5,
        inbox: 1,
        favorites: 2,
        duplicates: 0,
        missing: 1,
        albums: 2,
        storage_bytes: 1234,
    };
    let thumbs = thumbnail_totals(&vec![10, 20, u64::MAX]);
    assert_eq!(thumbs, ThumbnailTotals { count: 3, bytes: u64::MAX });
    assert_eq!(thumbnail_totals(&vec![1, 2]), ThumbnailTotals { count: 2, bytes: 3 });
    let storage = StorageFacts {
        schema_version: 4,
        database_bytes: 4096,
        thumbnails: thumbs,
        active_recovery_jobs: 0,
    };
    let items: Vec<ActivityItem> = (0..12).map(activity).collect();
    let build = BuildInfo {
        version: "0.1.0".to_string(),
        platform: "windows".to_string(),
        architecture: "x86_64".to_string(),
    };
    let report =
        diagnostics_report(&settings, &stats, storage, &items, "2026-01-02T03:04:05Z".to_string(), build);
    assert_eq!(report.application, "PicNest");
    assert!(!report.contains_paths && !report.contains_keys && !report.contains_images);
    assert!(report.telemetry_enabled);
    assert_eq!(report.source_count, 1);
    assert_eq!(report.vision_model, "gpt-4.1-mini");
    assert_eq!(report.stats.storage_bytes, 1234);
    assert_eq!(report.recent_activity.len(), 10);
    assert_eq!(report.recent_activity[3].title, "title 3");
    assert!(report.recent_activity[2].reversible);
    assert_eq!(diagnostics_file_name("20260102-030405"), "PicNest-diagnostics-20260102-030405.json");
}

#[test]
fn decoded_pictures_and_upload_previews() {
    let png = encode_png(20, 10);
    let preview = upload_preview(&png).expect("preview");
    assert_eq!((preview.source_width, preview.source_height), (20, 10));
    assert!(!preview.scaled);
    assert_eq!(&preview.jpeg[..2], &[0xFF, 0xD8]);
    let wide = upload_preview(&encode_png(1700, 20)).expect("wide");
    assert!(wide.scaled);
    let shrunk = image::load_from_memory(&wide.jpeg).expect("jpeg");
    assert_eq!(image::GenericImageView::dimensions(&shrunk).0, 1600);
    assert_eq!((wide.source_width, wide.source_height), (1700, 20));
    let failure = upload_preview(b"not an image").err().expect("failure");
    assert!(failure.message().starts_with("图片无法读取："));

    let facts = image_facts(&png).expect("facts");
    assert_eq!((facts.width, facts.height), (20, 10));
    assert_eq!(facts.perceptual_hash.len(), 16);
    assert_eq!(difference_hash(&png), Some(facts.perceptual_hash.clone()));
    // A flat grey picture has no brightness differences.
    assert_eq!(facts.perceptual_hash, "0000000000000000");
    assert!(image_facts(b"not an image").is_none());
    assert!(difference_hash(b"not an image").is_none());
    assert_eq!(cache_side(true), 1920);
    assert_eq!(cache_side(false), 560);
    let cached = cache_image(&encode_png(1000, 500), false).expect("cached");
    assert_eq!((cached.width, cached.height), (560, 280));
    let stored = image::load_from_memory_with_format(&cached.webp, image::ImageFormat::WebP).expect("webp");
    assert_eq!(image::GenericImageView::dimensions(&stored), (560, 280));
    // A small picture is scaled up to the bound as well.
    let preview = cache_image(&encode_png(10, 40), true).expect("preview");
    assert_eq!((preview.width, preview.height), (480, 1920));
    assert!(cache_image(b"not an image", true).is_none());
}

#[test]
fn horizontal_gradient_hash_and_unscaled_preview_bytes() {
    // Brightness falls from left to right, so every neighbour comparison is set.
    let img = image::GrayImage::from_fn(90, 80, |x, _| image::Luma([255 - (x as u8) * 2]));
    let mut out = std::io::Cursor::new(Vec::new());
    image::DynamicImage::ImageLuma8(img).write_to(&mut out, image::ImageFormat::Png).expect("encode");
    let png = out.into_inner();
    assert_eq!(difference_hash(&png), Some("ffffffffffffffff".to_string()));
    let preview = upload_preview(&png).expect("preview");
    assert!(!preview.scaled);
    let decoded = image::load_from_memory(&preview.jpeg).expect("jpeg");
    assert_eq!(image::GenericImageView::dimensions(&decoded), (90, 80));
}

#[test]
fn exif_block_gives_times_camera_and_location() {
    let taken = exif_ascii(exif::Tag::DateTimeOriginal, "2024:05:06 07:08:09");
    let make = exif_ascii(exif::Tag::Make, "Canon");
    let model = exif_ascii(exif::Tag::Model, "Canon EOS R5");
    let mut writer = exif::experimental::Writer::new();
    writer.push_field(&taken);
    writer.push_field(&make);
    writer.push_field(&model);
    let mut out = std::io::Cursor::new(Vec::new());
    writer.write(&mut out, false).expect("exif");
    let summary = exif_summary(&out.into_inner()).expect("summary");
    assert_eq!(summary.date_texts.len(), 3);
    assert!(summary.date_texts[0].as_deref().unwrap_or("").contains("2024"));
    assert_eq!(summary.date_texts[1], None);
    assert_eq!(summary.date_texts[2], None);
    assert_eq!(summary.camera.as_deref(), Some("Canon EOS R5"));
    assert_eq!(summary.location, None);

    let other_make = exif_ascii(exif::Tag::Make, "Sony");
    let other_model = exif_ascii(exif::Tag::Model, "ILCE-7M3");
    let mut writer = exif::experimental::Writer::new();
    writer.push_field(&other_make);
    writer.push_field(&other_model);
    let mut out = std::io::Cursor::new(Vec::new());
    writer.write(&mut out, false).expect("exif");
    let summary = exif_summary(&out.into_inner()).expect("summary");
    assert_eq!(summary.camera.as_deref(), Some("Sony ILCE-7M3"));
    assert_eq!(summary.date_texts, vec![None, None, None]);

    assert!(exif_summary(&encode_png(4, 4)).is_none());
    assert!(exif_summary(b"plain text").is_none());
}

#[test]
fn capture_time_takes_the_first_readable_time() {
    let times = vec![None, Some("2024-05-06T07:08:09+08:00".to_string()), Some("later".to_string())];
    assert_eq!(captured_at(&times, "fallback"), "2024-05-06T07:08:09+08:00");
    assert_eq!(captured_at(&[None, None, None], "2023-01-01T00:00:00Z"), "2023-01-01T00:00:00Z");
    assert_eq!(captured_at(&[], "2023-01-01T00:00:00Z"), "2023-01-01T00:00:00Z");
}

fn exif_ascii(tag: exif::Tag, text: &str) -> exif::Field {
    exif::Field { tag, ifd_num: exif::In::PRIMARY, value: exif::Value::Ascii(vec![text.as_bytes().to_vec()]) }
}

fn encode_png(width: u32, height: u32) -> Vec<u8> {
    let img = image::RgbImage::from_pixel(width, height, image::Rgb([90, 90, 90]));
    let mut out = std::io::Cursor::new(Vec::new());
    image::DynamicImage::ImageRgb8(img)
        .write_to(&mut out, image::ImageFormat::Png)
        .expect("encode");
    out.into_inner()
}

#[test]
fn exif_time_texts_are_read_as_wall_clock_times() {
    assert_eq!(exif_wall_time("2024:05:06 07:08:09"), Some((2024, 5, 6, 7, 8, 9)));
    assert_eq!(exif_wall_time("\"2024-05-06 07:08:09\" "), Some((2024, 5, 6, 7, 8, 9)));
    assert_eq!(exif_wall_time("2024:13:06 07:08:09"), None);
    assert_eq!(exif_wall_time("unknown"), None);
}
