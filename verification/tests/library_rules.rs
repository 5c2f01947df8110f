use picnest::library::{
    camera_label, clean_exif_text, content_hash, detect_category, gps_label, has_supported_extension,
    indexed_filename, initial_tags, is_supported_image, jpeg_data_url, location_labels, modified_at_text,
    owning_root, parse_tags, source_label, thumbnail_file_name, webp_data_url,
};
use picnest::query::fts_query;

#[test]
fn categorizes_common_sources() {
    assert_eq!(detect_category(r"C:\\Users\\me\\Desktop\\Screenshot_12.png"), "screenshot");
    assert_eq!(detect_category(r"D:\\WeChat Files\\mmexport123.jpg"), "wechat");
    assert_eq!(detect_category(r"E:\\DCIM\\IMG_0001.jpg"), "camera");
}

#[test]
fn builds_safe_prefix_full_text_queries() {
    assert_eq!(fts_query("Docker 报错"), Some("\"Docker\"* AND \"报错\"*".to_string()));
    assert_eq!(fts_query("!!!"), None);
}

#[test]
fn category_words_are_checked_in_order() {
    assert_eq!(detect_category(r"D:\Downloads\Screenshot.png"), "screenshot");
    assert_eq!(detect_category(r"D:\Downloads\photo.png"), "download");
    assert_eq!(detect_category(r"D:\论文\figure.png"), "document");
    assert_eq!(detect_category(r"D:\misc\a.png"), "other");
    assert_eq!(detect_category(r"D:\Weixin\DSC_1.jpg"), "wechat");
}

#[test]
fn full_text_terms_keep_letters_digits_dash_and_underscore() {
    assert_eq!(fts_query("a\"b"), Some("\"ab\"*".to_string()));
    assert_eq!(fts_query("  foo-bar_baz  x1 "), Some("\"foo-bar_baz\"* AND \"x1\"*".to_string()));
    assert_eq!(fts_query("   "), None);
    assert_eq!(fts_query("?? ok"), Some("\"ok\"*".to_string()));
}

#[test]
fn supported_extensions_ignore_case() {
    assert!(has_supported_extension("a.JPG"));
    assert!(has_supported_extension(r"D:\x\b.heic"));
    assert!(!has_supported_extension("a.txt"));
    assert!(!has_supported_extension("noext"));
    assert!(!has_supported_extension(".jpg"));
}

#[test]
fn image_check_reads_the_file_header() {
    let png = [0x89u8, b'P', b'N', b'G', 0x0D, 0x0A, 0x1A, 0x0A, 0, 0, 0, 13];
    assert!(is_supported_image("a.png", &png));
    // A recognised header that is not an image.
    assert!(!is_supported_image("a.jpg", b"%PDF-1.7 xxxxxxxxx"));
    // An unrecognised header passes only for HEIC, HEIF and TIFF names.
    assert!(is_supported_image("a.TIF", b"????"));
    assert!(!is_supported_image("a.jpg", b"????"));
    // The extension is checked first.
    assert!(!is_supported_image("a.txt", &png));
}

#[test]
fn initial_tags_follow_the_category() {
    assert_eq!(initial_tags("screenshot"), vec!["截图".to_string()]);
    assert_eq!(initial_tags("camera"), vec!["相机照片".to_string()]);
    assert!(initial_tags("other").is_empty());
}

#[test]
fn source_labels_and_file_names() {
    assert_eq!(source_label(r"D:\Pictures\Trips", "other"), "Trips");
    assert_eq!(source_label(r"D:\Pictures\Trips", "wechat"), "微信图片");
    assert_eq!(source_label(r"D:\Pictures\Trips", "camera"), "相机导入");
    assert_eq!(source_label(r"D:\", "download"), "本地文件夹");
    assert_eq!(indexed_filename(r"D:\a\b.jpg"), "b.jpg");
    assert_eq!(indexed_filename(r"D:\"), "untitled-image");
    assert_eq!(thumbnail_file_name("abc", true), "abc-preview.webp");
    assert_eq!(thumbnail_file_name("abc", false), "abc-grid.webp");
}

#[test]
fn location_labels_mark_files_outside_the_library() {
    let labels = location_labels(r"D:\Downloads\x.png", r"D:\Downloads", r"D:\Library");
    assert_eq!(labels.category, "download");
    assert_eq!(labels.source, "Downloads");
    assert!(labels.needs_organize);
    let inside = location_labels(r"D:\Library\2026\08\x.png", r"D:\Library", r"D:\Library");
    assert!(!inside.needs_organize);
}

#[test]
fn exif_text_and_camera_names() {
    assert_eq!(clean_exif_text("\" Canon \""), Some("Canon".to_string()));
    assert_eq!(clean_exif_text("\"\" "), None);
    assert_eq!(
        camera_label(Some("Canon".to_string()), Some("Canon EOS R5".to_string())),
        Some("Canon EOS R5".to_string())
    );
    assert_eq!(
        camera_label(Some("SONY".to_string()), Some("ILCE-7M3".to_string())),
        Some("SONY ILCE-7M3".to_string())
    );
    assert_eq!(camera_label(Some("NIKON".to_string()), None), Some("NIKON".to_string()));
    assert_eq!(camera_label(None, None), None);
    assert_eq!(gps_label("31 deg 14 min", "121 deg 28 min"), "31 deg 14 min · 121 deg 28 min");
}

#[test]
fn owning_root_is_the_first_containing_source() {
    let roots = vec![r"D:\other".to_string(), r"D:\src".to_string(), r"D:\src\sub".to_string()];
    assert_eq!(owning_root(r"D:\src\sub\a.jpg", &roots), Some(1));
    assert_eq!(owning_root(r"E:\a.jpg", &roots), None);
}

#[test]
fn data_urls_hashes_and_times() {
    assert_eq!(webp_data_url(b"abc"), "data:image/webp;base64,YWJj");
    assert_eq!(jpeg_data_url(b"ab"), "data:image/jpeg;base64,YWI=");
    assert_eq!(
        content_hash(b""),
        "af1349b9f5f9a1a6a0404dea36dcc9499bcb25c9adc112b7cc9a93cae41f3262"
    );
    assert_ne!(content_hash(b"a"), content_hash(b"b"));
    assert_eq!(modified_at_text(0, "now"), "1970-01-01T00:00:00+00:00");
    assert_eq!(modified_at_text(i64::MAX, "now"), "now");
}

#[test]
fn stored_tags_are_read_back() {
    assert_eq!(parse_tags("[\"a\",\"b\"]"), vec!["a".to_string(), "b".to_string()]);
    assert!(parse_tags("oops").is_empty());
}
