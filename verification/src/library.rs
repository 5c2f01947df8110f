//! Rules that classify and describe indexed pictures: categories, source
//! labels, supported files, camera names, search terms and data URLs.

use vstd::prelude::*;
use crate::numbers::parse_i64;
use crate::paths::{
    file_name, path_starts_with, spec_extension, spec_file_name, spec_path_starts_with, split_name,
};
use crate::text::{
    ascii_lower_seq, chars_eq, chars_of, contains_chars, contains_seq, push_all, push_str,
    starts_with_chars, starts_with_seq, str_eq, string_from_chars, trim_by, trim_chars, CharClass,
};
use crate::wrappers::{
    base64_standard, blake3_hex, infer_mime, spec_blake3_hex, spec_timestamp_rfc3339,
    timestamp_rfc3339, parse_json_string_list, spec_base64_standard, spec_infer_mime,
    spec_parse_json_string_list, spec_to_lowercase, to_lowercase,
};

verus! {

/// Whether some term occurs in the text.
pub open spec fn contains_any(v: Seq<char>, terms: Seq<Seq<char>>) -> bool {
    exists|i: int| 0 <= i < terms.len() && contains_seq(v, #[trigger] terms[i])
}

/// The views of a list of string slices.
pub open spec fn strs_view(terms: Seq<&str>) -> Seq<Seq<char>> {
    terms.map_values(|t: &str| t@)
}

/// Whether one of the terms occurs in `v`.
pub fn contains_any_term(v: &[char], terms: &[&str]) -> (b: bool)
    ensures
        b == contains_any(v@, strs_view(terms@)),
{
    let ghost tv = strs_view(terms@);
    let mut i: usize = 0;
    while i < terms.len()
        invariant
            i <= terms@.len(),
            tv == strs_view(terms@),
            forall|k: int| 0 <= k < i ==> !contains_seq(v@, #[trigger] tv[k]),
        decreases terms.len() - i,
    {
        let t = chars_of(terms[i]);
        if contains_chars(v, &t) {
            assert(contains_seq(v@, tv[i as int]));
            return true;
        }
        i = i + 1;
    }
    false
}

/// Path words that mark a screenshot.
pub open spec fn screenshot_terms() -> Seq<Seq<char>> {
    seq!["screenshot"@, "screen shot"@, "snipping"@, "截图"@, "截屏"@]
}

/// Path words that mark a WeChat picture.
pub open spec fn wechat_terms() -> Seq<Seq<char>> {
    seq!["wechat"@, "weixin"@, "微信"@, "mmexport"@]
}

/// Path words that mark a download.
pub open spec fn download_terms() -> Seq<Seq<char>> {
    seq!["downloads"@, "download"@, "下载"@]
}

/// Path words that mark a document picture.
pub open spec fn document_terms() -> Seq<Seq<char>> {
    seq!["paper"@, "document"@, "论文"@, "文档"@, "invoice"@]
}

/// Path words that mark a camera picture.
pub open spec fn camera_terms() -> Seq<Seq<char>> {
    seq!["dcim"@, "img_"@, "dsc_"@, "pxl_"@, "camera"@]
}

/// The category of a picture, from words in its lower-cased path, checked
/// in this order: screenshot, wechat, download, document, camera, other.
pub open spec fn spec_detect_category(path: Seq<char>) -> Seq<char> {
    let v = spec_to_lowercase(path);
    if contains_any(v, screenshot_terms()) {
        "screenshot"@
    } else if contains_any(v, wechat_terms()) {
        "wechat"@
    } else if contains_any(v, download_terms()) {
        "download"@
    } else if contains_any(v, document_terms()) {
        "document"@
    } else if contains_any(v, camera_terms()) {
        "camera"@
    } else {
        "other"@
    }
}

/// Classifies a picture by words in its path.
pub fn detect_category(path: &str) -> (out: String)
    ensures
        out@ == spec_detect_category(path@),
{
    let v = chars_of(to_lowercase(path).as_str());
    let a: [&str; 5] = ["screenshot", "screen shot", "snipping", "截图", "截屏"];
    let b: [&str; 4] = ["wechat", "weixin", "微信", "mmexport"];
    let c: [&str; 3] = ["downloads", "download", "下载"];
    let d: [&str; 5] = ["paper", "document", "论文", "文档", "invoice"];
    let e: [&str; 5] = ["dcim", "img_", "dsc_", "pxl_", "camera"];
    assert(strs_view(a@) == screenshot_terms());
    assert(strs_view(b@) == wechat_terms());
    assert(strs_view(c@) == download_terms());
    assert(strs_view(d@) == document_terms());
    assert(strs_view(e@) == camera_terms());
    let out = if contains_any_term(&v, &a) {
        "screenshot"
    } else if contains_any_term(&v, &b) {
        "wechat"
    } else if contains_any_term(&v, &c) {
        "download"
    } else if contains_any_term(&v, &d) {
        "document"
    } else if contains_any_term(&v, &e) {
        "camera"
    } else {
        "other"
    };
    String::from_str(out)
}

/// Whether one of the words occurs in the text.
pub open spec fn mentions_word(text: Seq<char>, words: Seq<Seq<char>>) -> bool {
    exists|i: int| 0 <= i < words.len() && contains_seq(text, #[trigger] words[i])
}

/// The category of a picture follows the words of its lower-cased path, the
/// first group that occurs deciding: screenshot words (`screenshot`,
/// `screen shot`, `snipping`, `截图`, `截屏`), WeChat words (`wechat`,
/// `weixin`, `微信`, `mmexport`), download words (`downloads`, `download`,
/// `下载`), document words (`paper`, `document`, `论文`, `文档`, `invoice`),
/// camera words (`dcim`, `img_`, `dsc_`, `pxl_`, `camera`); a path with none
/// of them is `other`.
pub proof fn law_category_follows_path_words(path: Seq<char>)
    ensures
        ({
            let v = spec_to_lowercase(path);
            let shot = seq!["screenshot"@, "screen shot"@, "snipping"@, "截图"@, "截屏"@];
            let chat = seq!["wechat"@, "weixin"@, "微信"@, "mmexport"@];
            let down = seq!["downloads"@, "download"@, "下载"@];
            let doc = seq!["paper"@, "document"@, "论文"@, "文档"@, "invoice"@];
            let cam = seq!["dcim"@, "img_"@, "dsc_"@, "pxl_"@, "camera"@];
            &&& mentions_word(v, shot) ==> spec_detect_category(path) == "screenshot"@
            &&& !mentions_word(v, shot) && mentions_word(v, chat) ==> spec_detect_category(path)
                == "wechat"@
            &&& !mentions_word(v, shot) && !mentions_word(v, chat) && mentions_word(v, down)
                ==> spec_detect_category(path) == "download"@
            &&& !mentions_word(v, shot) && !mentions_word(v, chat) && !mentions_word(v, down)
                && mentions_word(v, doc) ==> spec_detect_category(path) == "document"@
            &&& !mentions_word(v, shot) && !mentions_word(v, chat) && !mentions_word(v, down)
                && !mentions_word(v, doc) && mentions_word(v, cam) ==> spec_detect_category(path)
                == "camera"@
            &&& !mentions_word(v, shot) && !mentions_word(v, chat) && !mentions_word(v, down)
                && !mentions_word(v, doc) && !mentions_word(v, cam) ==> spec_detect_category(path)
                == "other"@
        }),
{
    let v = spec_to_lowercase(path);
    assert(seq!["screenshot"@, "screen shot"@, "snipping"@, "截图"@, "截屏"@] == screenshot_terms());
    assert(seq!["wechat"@, "weixin"@, "微信"@, "mmexport"@] == wechat_terms());
    assert(seq!["downloads"@, "download"@, "下载"@] == download_terms());
    assert(seq!["paper"@, "document"@, "论文"@, "文档"@, "invoice"@] == document_terms());
    assert(seq!["dcim"@, "img_"@, "dsc_"@, "pxl_"@, "camera"@] == camera_terms());
}

/// A file is indexed by extension exactly when the ASCII lower-cased
/// extension of its name is `jpg`, `jpeg`, `png`, `webp`, `gif`, `bmp`, `tif`,
/// `tiff`, `heic` or `heif`; it is then an image when `infer` recognises an
/// `image/` type in its header, or, when `infer` recognises nothing, when the
/// extension is `heic`, `heif`, `tif` or `tiff`.
pub proof fn law_supported_images(path: Seq<char>, header: Seq<u8>)
    ensures
        ({
            let exts = seq![
                "jpg"@,
                "jpeg"@,
                "png"@,
                "webp"@,
                "gif"@,
                "bmp"@,
                "tif"@,
                "tiff"@,
                "heic"@,
                "heif"@,
            ];
            let bare = seq!["heic"@, "heif"@, "tif"@, "tiff"@];
            &&& spec_has_supported_extension(path) <==> (spec_lower_extension(path) is Some
                && exts.contains(spec_lower_extension(path)->0))
            &&& spec_is_supported_image(path, header) <==> (spec_has_supported_extension(path) && (
            if spec_infer_mime(header) is Some {
                starts_with_seq(spec_infer_mime(header)->0, "image/"@)
            } else {
                spec_lower_extension(path) is Some && bare.contains(spec_lower_extension(path)->0)
            }))
        }),
{
    assert(seq![
        "jpg"@,
        "jpeg"@,
        "png"@,
        "webp"@,
        "gif"@,
        "bmp"@,
        "tif"@,
        "tiff"@,
        "heic"@,
        "heif"@,
    ] == supported_extensions());
    assert(seq!["heic"@, "heif"@, "tif"@, "tiff"@] == header_free_extensions());
}

/// The tags a picture starts with, by category.
pub open spec fn spec_initial_tags(category: Seq<char>) -> Seq<Seq<char>> {
    if category == "screenshot"@ {
        seq!["截图"@]
    } else if category == "wechat"@ {
        seq!["微信图片"@]
    } else if category == "download"@ {
        seq!["下载图片"@]
    } else if category == "camera"@ {
        seq!["相机照片"@]
    } else if category == "document"@ {
        seq!["文档图片"@]
    } else {
        seq![]
    }
}

/// The tags a new picture of the category receives (also what clearing AI
/// results restores).
pub fn initial_tags(category: &str) -> (out: Vec<String>)
    ensures
        out@.map_values(|s: String| s@) == spec_initial_tags(category@),
{
    let mut out: Vec<String> = Vec::new();
    let tag = if str_eq(category, "screenshot") {
        "截图"
    } else if str_eq(category, "wechat") {
        "微信图片"
    } else if str_eq(category, "download") {
        "下载图片"
    } else if str_eq(category, "camera") {
        "相机照片"
    } else if str_eq(category, "document") {
        "文档图片"
    } else {
        return out;
    };
    out.push(String::from_str(tag));
    out
}

/// The source label of a location: fixed labels for WeChat, camera and
/// screenshot pictures, otherwise the name of the source folder
/// (`本地文件夹` when the folder path has no name).
pub open spec fn spec_source_label(root: Seq<char>, category: Seq<char>) -> Seq<char> {
    if category == "wechat"@ {
        "微信图片"@
    } else if category == "camera"@ {
        "相机导入"@
    } else if category == "screenshot"@ {
        "截图"@
    } else {
        match spec_file_name(root) {
            Some(n) => n,
            None => "本地文件夹"@,
        }
    }
}

/// The source label of a location under `root` with the given category.
pub fn source_label(root: &str, category: &str) -> (out: String)
    ensures
        out@ == spec_source_label(root@, category@),
{
    if str_eq(category, "wechat") {
        String::from_str("微信图片")
    } else if str_eq(category, "camera") {
        String::from_str("相机导入")
    } else if str_eq(category, "screenshot") {
        String::from_str("截图")
    } else {
        match file_name(root) {
            Some(n) => string_from_chars(&n),
            None => String::from_str("本地文件夹"),
        }
    }
}

/// What indexing records of a picture's category: a screenshot starts with
/// the tag `截图`, a WeChat picture with `微信图片`, a download with `下载图片`,
/// a camera picture with `相机照片`, a document with `文档图片`, anything else
/// with no tag; its source is `微信图片` for WeChat pictures, `相机导入` for
/// camera pictures and `截图` for screenshots, and otherwise the name of the
/// source folder, or `本地文件夹` when the folder has no name.
pub proof fn law_category_tags_and_source(category: Seq<char>, root: Seq<char>)
    ensures
        category == "screenshot"@ ==> spec_initial_tags(category) == seq!["截图"@],
        category == "wechat"@ ==> spec_initial_tags(category) == seq!["微信图片"@],
        category == "download"@ ==> spec_initial_tags(category) == seq!["下载图片"@],
        category == "camera"@ ==> spec_initial_tags(category) == seq!["相机照片"@],
        category == "document"@ ==> spec_initial_tags(category) == seq!["文档图片"@],
        category == "other"@ ==> spec_initial_tags(category).len() == 0,
        category == "wechat"@ ==> spec_source_label(root, category) == "微信图片"@,
        category == "camera"@ ==> spec_source_label(root, category) == "相机导入"@,
        category == "screenshot"@ ==> spec_source_label(root, category) == "截图"@,
        (category != "wechat"@ && category != "camera"@ && category != "screenshot"@) ==> (
        spec_source_label(root, category) == match spec_file_name(root) {
            Some(n) => n,
            None => "本地文件夹"@,
        }),
{
    reveal_strlit("screenshot");
    reveal_strlit("wechat");
    reveal_strlit("download");
    reveal_strlit("camera");
    reveal_strlit("document");
    reveal_strlit("other");
    assert("screenshot"@.len() == 10 && "wechat"@.len() == 6 && "download"@.len() == 8
        && "camera"@.len() == 6 && "document"@.len() == 8 && "other"@.len() == 5);
    assert("wechat"@ != "camera"@) by {
        assert("wechat"@[0] != "camera"@[0]);
    }
    assert("download"@ != "document"@) by {
        assert("download"@[2] != "document"@[2]);
    }
}

/// How a location is labelled when it is indexed or seen again.
#[derive(Debug, Clone)]
pub struct LocationLabels {
    pub category: String,
    pub source: String,
    pub needs_organize: bool,
}

/// Labels of a file found under `source_root`: its category, its source
/// label, and whether it still lies outside the library folder.
pub fn location_labels(path: &str, source_root: &str, library_root: &str) -> (out: LocationLabels)
    ensures
        out.category@ == spec_detect_category(path@),
        out.source@ == spec_source_label(source_root@, spec_detect_category(path@)),
        out.needs_organize == !spec_path_starts_with(path@, library_root@),
{
    let category = detect_category(path);
    let source = source_label(source_root, category.as_str());
    let needs_organize = !path_starts_with(path, library_root);
    LocationLabels { category, source, needs_organize }
}

/// The file name recorded for a newly indexed picture (`untitled-image` when
/// the path has no name).
pub open spec fn spec_indexed_filename(path: Seq<char>) -> Seq<char> {
    match spec_file_name(path) {
        Some(n) => n,
        None => "untitled-image"@,
    }
}

/// The file name recorded for a newly indexed picture.
pub fn indexed_filename(path: &str) -> (out: String)
    ensures
        out@ == spec_indexed_filename(path@),
{
    match file_name(path) {
        Some(n) => string_from_chars(&n),
        None => String::from_str("untitled-image"),
    }
}

/// Extensions of the files the library indexes (compared in ASCII lower case).
pub open spec fn supported_extensions() -> Seq<Seq<char>> {
    seq![
        "jpg"@,
        "jpeg"@,
        "png"@,
        "webp"@,
        "gif"@,
        "bmp"@,
        "tif"@,
        "tiff"@,
        "heic"@,
        "heif"@,
    ]
}

/// The ASCII lower-cased extension of the path's file name, if any.
pub open spec fn spec_lower_extension(path: Seq<char>) -> Option<Seq<char>> {
    match spec_file_name(path) {
        Some(n) => match spec_extension(n) {
            Some(e) => Some(ascii_lower_seq(e)),
            None => None,
        },
        None => None,
    }
}

/// Whether the path has one of the supported extensions.
pub open spec fn spec_has_supported_extension(path: Seq<char>) -> bool {
    match spec_lower_extension(path) {
        Some(e) => supported_extensions().contains(e),
        None => false,
    }
}

fn lower_extension(path: &str) -> (out: Option<Vec<char>>)
    ensures
        match out {
            Some(e) => spec_lower_extension(path@) == Some(e@),
            None => spec_lower_extension(path@) is None,
        },
{
    match file_name(path) {
        Some(n) => {
            let (_, ext) = split_name(&n);
            match ext {
                Some(e) => Some(crate::text::to_ascii_lower(&e)),
                None => None,
            }
        },
        None => None,
    }
}

/// Whether one of the names equals `e`.
fn in_list(e: &[char], list: &[&str]) -> (b: bool)
    ensures
        b == strs_view(list@).contains(e@),
{
    let ghost lv = strs_view(list@);
    let mut i: usize = 0;
    while i < list.len()
        invariant
            i <= list@.len(),
            lv == strs_view(list@),
            forall|k: int| 0 <= k < i ==> lv[k] != e@,
        decreases list.len() - i,
    {
        let t = chars_of(list[i]);
        if chars_eq(e, &t) {
            assert(lv[i as int] == e@);
            return true;
        }
        i = i + 1;
    }
    false
}

/// Whether the library indexes files with this path's extension.
pub fn has_supported_extension(path: &str) -> (b: bool)
    ensures
        b == spec_has_supported_extension(path@),
{
    let list: [&str; 10] = ["jpg", "jpeg", "png", "webp", "gif", "bmp", "tif", "tiff", "heic", "heif"];
    assert(strs_view(list@) == supported_extensions());
    match lower_extension(path) {
        Some(e) => in_list(&e, &list),
        None => false,
    }
}

/// Extensions accepted when the file header is not recognised.
pub open spec fn header_free_extensions() -> Seq<Seq<char>> {
    seq!["heic"@, "heif"@, "tif"@, "tiff"@]
}

/// Whether a file is an image the library indexes: it has a supported
/// extension, and either `infer` recognises its header as an `image/` type,
/// or `infer` recognises nothing and the extension is HEIC, HEIF or TIFF.
pub open spec fn spec_is_supported_image(path: Seq<char>, header: Seq<u8>) -> bool {
    spec_has_supported_extension(path) && match spec_infer_mime(header) {
        Some(m) => starts_with_seq(m, "image/"@),
        None => match spec_lower_extension(path) {
            Some(e) => header_free_extensions().contains(e),
            None => false,
        },
    }
}

/// Whether a file with this path and these first bytes (up to 32 are read)
/// is an image the library indexes.
pub fn is_supported_image(path: &str, header: &[u8]) -> (b: bool)
    ensures
        b == spec_is_supported_image(path@, header@),
{
    if !has_supported_extension(path) {
        return false;
    }
    match infer_mime(header) {
        Some(m) => {
            let mv = chars_of(m.as_str());
            let prefix = chars_of("image/");
            starts_with_chars(&mv, &prefix)
        },
        None => {
            let list: [&str; 4] = ["heic", "heif", "tif", "tiff"];
            assert(strs_view(list@) == header_free_extensions());
            match lower_extension(path) {
                Some(e) => in_list(&e, &list),
                None => false,
            }
        },
    }
}

/// An EXIF text value with surrounding quotes and spaces removed, or `None`
/// when nothing is left.
pub open spec fn spec_clean_exif_text(value: Seq<char>) -> Option<Seq<char>> {
    let t = trim_by(value, CharClass::QuoteOrSpace);
    if t.len() > 0 {
        Some(t)
    } else {
        None
    }
}

/// Cleans an EXIF text value as it is displayed.
pub fn clean_exif_text(value: &str) -> (out: Option<String>)
    ensures
        match out {
            Some(s) => spec_clean_exif_text(value@) == Some(s@),
            None => spec_clean_exif_text(value@) is None,
        },
{
    let v = chars_of(value);
    let t = trim_chars(&v, CharClass::QuoteOrSpace);
    if t.len() > 0 {
        Some(string_from_chars(&t))
    } else {
        None
    }
}

/// The camera name from EXIF make and model: `make model` when the model
/// does not already name the make (ignoring case), otherwise the model, or
/// the make alone.
pub open spec fn spec_camera_label(make: Option<Seq<char>>, model: Option<Seq<char>>) -> Option<
    Seq<char>,
> {
    match (make, model) {
        (Some(ma), Some(mo)) => if !contains_seq(spec_to_lowercase(mo), spec_to_lowercase(ma)) {
            Some(ma + seq![' '] + mo)
        } else {
            Some(mo)
        },
        (None, Some(mo)) => Some(mo),
        (Some(ma), None) => Some(ma),
        (None, None) => None,
    }
}

/// The view of an optional string.
pub open spec fn opt_view(o: Option<String>) -> Option<Seq<char>> {
    match o {
        Some(s) => Some(s@),
        None => None,
    }
}

/// The camera name recorded for a picture.
pub fn camera_label(make: Option<String>, model: Option<String>) -> (out: Option<String>)
    ensures
        opt_view(out) == spec_camera_label(opt_view(make), opt_view(model)),
{
    match (make, model) {
        (Some(ma), Some(mo)) => {
            let lo = chars_of(to_lowercase(mo.as_str()).as_str());
            let la = chars_of(to_lowercase(ma.as_str()).as_str());
            if !contains_chars(&lo, &la) {
                let mut v = chars_of(ma.as_str());
                v.push(' ');
                push_str(&mut v, mo.as_str());
                Some(string_from_chars(&v))
            } else {
                Some(mo)
            }
        },
        (None, Some(mo)) => Some(mo),
        (Some(ma), None) => Some(ma),
        (None, None) => None,
    }
}

/// The index of the first source folder that contains `path`.
pub open spec fn spec_owning_root(path: Seq<char>, roots: Seq<Seq<char>>) -> Option<int> {
    if exists|i: int| 0 <= i < roots.len() && spec_path_starts_with(path, #[trigger] roots[i]) {
        Some(
            choose|i: int|
                0 <= i < roots.len() && spec_path_starts_with(path, roots[i]) && forall|j: int|
                    0 <= j < i ==> !spec_path_starts_with(path, #[trigger] roots[j]),
        )
    } else {
        None
    }
}

/// The first source folder that contains a changed file, if any.
pub fn owning_root(path: &str, roots: &Vec<String>) -> (out: Option<usize>)
    ensures
        match out {
            Some(i) => i < roots@.len() && spec_path_starts_with(path@, roots@[i as int]@) && forall|
                j: int,
            | 0 <= j < i ==> !spec_path_starts_with(path@, #[trigger] roots@[j]@),
            None => forall|j: int|
                0 <= j < roots@.len() ==> !spec_path_starts_with(path@, #[trigger] roots@[j]@),
        },
{
    let mut i: usize = 0;
    while i < roots.len()
        invariant
            i <= roots@.len(),
            forall|j: int| 0 <= j < i ==> !spec_path_starts_with(path@, #[trigger] roots@[j]@),
        decreases roots.len() - i,
    {
        if path_starts_with(path, roots[i].as_str()) {
            return Some(i);
        }
        i = i + 1;
    }
    None
}

/// A `data:` URL holding WebP bytes.
pub open spec fn spec_webp_data_url(bytes: Seq<u8>) -> Seq<char> {
    "data:image/webp;base64,"@ + spec_base64_standard(bytes)
}

/// The `data:` URL under which a WebP thumbnail or preview is shown.
pub fn webp_data_url(bytes: &[u8]) -> (out: String)
    ensures
        out@ == spec_webp_data_url(bytes@),
{
    let mut v = chars_of("data:image/webp;base64,");
    let enc = base64_standard(bytes);
    push_str(&mut v, enc.as_str());
    string_from_chars(&v)
}

/// A `data:` URL holding JPEG bytes.
pub open spec fn spec_jpeg_data_url(bytes: Seq<u8>) -> Seq<char> {
    "data:image/jpeg;base64,"@ + spec_base64_standard(bytes)
}

/// The `data:` URL under which the compressed preview is sent for analysis.
pub fn jpeg_data_url(bytes: &[u8]) -> (out: String)
    ensures
        out@ == spec_jpeg_data_url(bytes@),
{
    let mut v = chars_of("data:image/jpeg;base64,");
    let enc = base64_standard(bytes);
    push_str(&mut v, enc.as_str());
    string_from_chars(&v)
}

/// The cache file name of a picture's grid thumbnail or preview.
pub open spec fn spec_thumbnail_file_name(content_hash: Seq<char>, preview: bool) -> Seq<char> {
    if preview {
        content_hash + "-preview.webp"@
    } else {
        content_hash + "-grid.webp"@
    }
}

/// The cache file name of a picture's grid thumbnail or preview.
pub fn thumbnail_file_name(content_hash: &str, preview: bool) -> (out: String)
    ensures
        out@ == spec_thumbnail_file_name(content_hash@, preview),
{
    let mut v = chars_of(content_hash);
    if preview {
        push_str(&mut v, "-preview.webp");
    } else {
        push_str(&mut v, "-grid.webp");
    }
    string_from_chars(&v)
}

/// The tags stored for a picture: the JSON list, or none when the text is not one.
pub fn parse_tags(tags_json: &str) -> (out: Vec<String>)
    ensures
        out@.map_values(|s: String| s@) == match spec_parse_json_string_list(tags_json@) {
            Some(l) => l,
            None => Seq::<Seq<char>>::empty(),
        },
{
    match parse_json_string_list(tags_json) {
        Some(v) => v,
        None => {
            let v: Vec<String> = Vec::new();
            assert(v@.map_values(|s: String| s@) == Seq::<Seq<char>>::empty());
            v
        },
    }
}

/// The content hash under which a picture is indexed: the lower-case
/// hexadecimal BLAKE3 digest of the file's bytes, 64 digits long.
pub fn content_hash(bytes: &[u8]) -> (out: String)
    ensures
        out@ == spec_blake3_hex(bytes@),
        out@.len() == 64,
{
    blake3_hex(bytes)
}

/// The modification time stored for a file: the RFC 3339 text of its UNIX
/// time, or `now` when that time is out of range.
pub open spec fn spec_modified_at_text(secs: i64, now: Seq<char>) -> Seq<char> {
    match spec_timestamp_rfc3339(secs) {
        Some(t) => t,
        None => now,
    }
}

/// The modification time stored for a file.
pub fn modified_at_text(secs: i64, now: &str) -> (out: String)
    ensures
        out@ == spec_modified_at_text(secs, now@),
{
    match timestamp_rfc3339(secs) {
        Some(t) => t,
        None => string_from_chars(&chars_of(now)),
    }
}

/// The location text of a picture with GPS coordinates: latitude, a middle
/// dot, longitude.
pub open spec fn spec_gps_label(latitude: Seq<char>, longitude: Seq<char>) -> Seq<char> {
    latitude + " · "@ + longitude
}

/// The location text of a picture with GPS coordinates.
pub fn gps_label(latitude: &str, longitude: &str) -> (out: String)
    ensures
        out@ == spec_gps_label(latitude@, longitude@),
{
    let mut v = chars_of(latitude);
    push_str(&mut v, " · ");
    push_str(&mut v, longitude);
    string_from_chars(&v)
}

} // verus!
