use picnest::paths::{normalized, path_key, path_starts_with, paths_equal, same_path, same_volume};
use picnest::sources::path_in_scope;
use picnest::phash::{difference_hash_hex, difference_hash_value, hamming_hex, perceptual_segments};

#[test]
fn splits_perceptual_hash_into_indexable_segments() {
    assert_eq!(
        perceptual_segments("0123abcd4567ffff"),
        Some([0x0123, 0xabcd, 0x4567, 0xffff])
    );
    assert_eq!(hamming_hex("0000000000000000", "0000000000000007"), 3);
}

#[test]
fn library_prefix_is_boundary_aware() {
    assert!(path_starts_with(r"D:\\Photos\\2026\\08\\a.jpg", r"D:\\Photos"));
    assert!(!path_starts_with(r"D:\\Photos-old\\a.jpg", r"D:\\Photos"));
}

#[test]
fn compares_windows_volume_prefixes() {
    assert!(same_volume(r"D:\\one.jpg", r"D:\\Photos\\one.jpg"));
    assert!(!same_volume(r"C:\\one.jpg", r"D:\\Photos\\one.jpg"));
}

#[test]
fn perceptual_segments_reject_malformed_hashes() {
    assert_eq!(perceptual_segments("0123abcd4567fff"), None);
    assert_eq!(perceptual_segments("0123abcd4567fffg"), None);
    assert_eq!(perceptual_segments("0123ABCD4567FFFF"), Some([0x0123, 0xabcd, 0x4567, 0xffff]));
}

#[test]
fn hamming_distance_counts_differing_bits() {
    assert_eq!(hamming_hex("ffffffffffffffff", "0000000000000000"), 64);
    assert_eq!(hamming_hex("00000000000000ff", "00000000000000f0"), 4);
    // Unparseable input counts as the largest distance.
    assert_eq!(hamming_hex("zz", "00"), 64);
    // The distance does not depend on the order of its arguments.
    assert_eq!(hamming_hex("12", "34"), hamming_hex("34", "12"));
}

#[test]
fn difference_hash_compares_neighbouring_pixels() {
    // Every pixel brighter than its right neighbour: all 64 bits set.
    let mut falling = Vec::new();
    for _row in 0..8 {
        for x in 0..9u8 {
            falling.push(200 - x * 10);
        }
    }
    assert_eq!(difference_hash_value(&falling), u64::MAX);
    assert_eq!(difference_hash_hex(&falling), "ffffffffffffffff");
    // A flat picture has no differences.
    let flat = vec![128u8; 72];
    assert_eq!(difference_hash_hex(&flat), "0000000000000000");
    // Only the first pixel of the first row is brighter: the top bit.
    let mut one = vec![10u8; 72];
    one[0] = 20;
    assert_eq!(difference_hash_hex(&one), "8000000000000000");
    assert_eq!(hamming_hex(&difference_hash_hex(&one), &difference_hash_hex(&flat)), 1);
}

#[test]
fn path_keys_and_normal_forms() {
    assert_eq!(path_key("D:/Photos/IMG_1.JPG"), r"d:\photos\img_1.jpg");
    assert_eq!(normalized(r"D:\Photos\\"), r"d:\photos");
    assert!(paths_equal(r"D:\Photos", r"d:\photos/"));
    assert!(!paths_equal(r"D:\Photos", r"D:\Photos2"));
}

#[test]
fn same_path_ignores_separator_style_and_drive_case() {
    assert!(same_path(r"D:\Photos\a.jpg", "d:/Photos/a.jpg"));
    assert!(same_path(r"D:\Photos\\a.jpg", r"D:\Photos\a.jpg"));
    assert!(!same_path(r"D:\Photos\a.jpg", r"D:\photos\a.jpg"));
    assert!(!same_path(r"D:\Photos\a.jpg", r"D:\Photos\b.jpg"));
}

#[test]
fn volume_prefixes_cover_unc_paths() {
    assert!(same_volume(r"\\server\share\a.jpg", r"\\SERVER\share\b.jpg"));
    assert!(!same_volume(r"\\server\share\a.jpg", r"\\server\other\b.jpg"));
    assert!(same_volume("relative.jpg", "other/relative.jpg"));
    assert!(!same_volume(r"C:\a.jpg", "relative.jpg"));
}

#[test]
fn path_prefix_accepts_both_separators_and_equal_paths() {
    assert!(path_starts_with(r"D:\Photos", r"D:\Photos\"));
    assert!(path_starts_with("D:/Photos/a.jpg", "d:/photos"));
    assert!(path_starts_with(r"d:\photos\a.jpg", r"D:\Photos/"));
    assert!(!path_starts_with(r"D:\Photo", r"D:\Photos"));
}

#[test]
fn near_duplicates_share_an_indexed_segment() {
    let a = "0123abcd4567ffff";
    // Three bits apart, spread over three segments: the fourth still matches.
    let b = "0123abcc4566fffe";
    assert_eq!(hamming_hex(a, b), 3);
    let sa = perceptual_segments(a).expect("a");
    let sb = perceptual_segments(b).expect("b");
    assert!((0..4).any(|i| sa[i] == sb[i]));
    assert_eq!(sa[0], sb[0]);
    // A leading `+` is read by both parsers alike.
    assert_eq!(perceptual_segments("+123abcd4567ffff"), Some([0x123, 0xabcd, 0x4567, 0xffff]));
    assert_eq!(hamming_hex("+123abcd4567ffff", "0123abcd4567ffff"), 0);
}

#[test]
fn hex_form_of_a_hash_splits_into_its_sixteen_bit_fields() {
    for h in [0u64, 1, 0x0123_abcd_4567_ffff, u64::MAX, 0x8000_0000_0000_0001] {
        let expected = [
            ((h >> 48) & 0xffff) as i64,
            ((h >> 32) & 0xffff) as i64,
            ((h >> 16) & 0xffff) as i64,
            (h & 0xffff) as i64,
        ];
        assert_eq!(perceptual_segments(&format!("{h:016x}")), Some(expected));
    }
}

#[test]
fn a_folder_lies_within_its_own_scope() {
    for folder in [r"D:\Photos", r"D:\Photos\", r"D:/Photos//", r"D:\ΑΣ\", "/"] {
        assert!(path_starts_with(folder, folder), "{folder}");
        assert!(path_in_scope(folder, folder, true), "{folder}");
    }
}
