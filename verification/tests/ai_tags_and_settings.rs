use picnest::ai::{
    analysis_endpoint, analysis_json, chars_lt, AiReplyError, clean_ai_content, connection_outcome, entered_key, key_to_store,
    models_endpoint, normalize_ai_tags, str_lt,
};
use picnest::albums::{album_count, album_name, ensure_manual_album, AlbumCount};
use picnest::error::AppError;
use picnest::library::parse_tags;
use picnest::models::{
    default_settings, normalize_loaded_settings, recursive_flag, settings_for_save,
    settings_from_input, AppSettings, SaveSettingsInput,
};
use picnest::query::AlbumInfo;
use picnest::tags::{initial_tags_json, manual_tags_json, normalize_manual_tags};

fn strings(items: &[&str]) -> Vec<String> {
    items.iter().map(|s| s.to_string()).collect()
}

#[test]
fn empty_key_is_not_stored() {
    assert!(key_to_store("   ").is_none());
}

#[test]
fn stored_keys_are_trimmed() {
    assert_eq!(key_to_store("  sk-test \n"), Some("sk-test".to_string()));
    assert_eq!(entered_key(&Some(" k ".to_string())), Some("k".to_string()));
    assert_eq!(entered_key(&Some("\t".to_string())), None);
    assert_eq!(entered_key(&None), None);
}

#[test]
fn connection_test_addresses_and_results() {
    assert_eq!(
        models_endpoint(" https://api.example.com/v1// ", "m"),
        Ok("https://api.example.com/v1/models".to_string())
    );
    assert_eq!(models_endpoint(" / ", "m"), Err(AppError::MissingConnectionFields));
    assert_eq!(models_endpoint("https://x", "  "), Err(AppError::MissingConnectionFields));
    let ok = connection_outcome(200, 42, " gpt-4.1-mini ");
    assert!(ok.ok);
    assert_eq!(ok.latency_ms, 42);
    assert_eq!(ok.message, "连接成功，可使用模型 gpt-4.1-mini");
    let denied = connection_outcome(401, 7, "m");
    assert!(!denied.ok);
    assert_eq!(denied.message, "服务返回 HTTP 401");
    assert!(connection_outcome(299, 0, "m").ok);
    assert!(!connection_outcome(301, 0, "m").ok);
    assert_eq!(AppError::MissingConnectionFields.message(), "接口地址和模型名称不能为空");
}

fn settings() -> AppSettings {
    default_settings(
        Some(r"C:\Users\me\Pictures".to_string()),
        Some(r"C:\Users\me\Desktop".to_string()),
        Some(r"C:\Users\me\Downloads".to_string()),
    )
}

#[test]
fn analysis_needs_cloud_ai() {
    let mut s = settings();
    assert_eq!(analysis_endpoint(&s), Err(AppError::CloudAiDisabled));
    s.cloud_ai_enabled = true;
    assert_eq!(analysis_endpoint(&s), Ok("https://api.openai.com/v1/chat/completions".to_string()));
    s.ai_base_url = "https://host/api///".to_string();
    assert_eq!(analysis_endpoint(&s), Ok("https://host/api/chat/completions".to_string()));
    assert_eq!(AppError::CloudAiDisabled.message(), "云端 AI 当前未启用");
}

#[test]
fn model_replies_lose_their_fences() {
    assert_eq!(clean_ai_content("```json\n{\"a\":1}\n```"), "{\"a\":1}");
    assert_eq!(clean_ai_content("  ```\n{}\n```  "), "{}");
    assert_eq!(clean_ai_content("{\"x\":\"```\"}"), "{\"x\":\"```\"}");
    assert_eq!(clean_ai_content("``````json{}``````"), "json{}");
    assert_eq!(clean_ai_content("plain"), "plain");
}

#[test]
fn analysis_tags_are_sorted_once() {
    let tags = strings(&["猫", "cat", "Cat", "cat", "a", "猫"]);
    assert_eq!(normalize_ai_tags(&tags), strings(&["Cat", "a", "cat", "猫"]));
    // The stored list does not depend on the order of the reply.
    let shuffled = strings(&["a", "猫", "Cat", "cat"]);
    assert_eq!(normalize_ai_tags(&shuffled), normalize_ai_tags(&tags));
    assert!(normalize_ai_tags(&Vec::new()).is_empty());
    assert!(str_lt("ab", "b"));
    assert!(str_lt("a", "ab"));
    assert!(!str_lt("ab", "ab"));
    assert!(chars_lt(&['Z'], &['a']));
}

#[test]
fn hand_edited_tags_are_cleaned() {
    let tags = strings(&[" Travel ", "travel", "", "   ", "旅行", &"x".repeat(41), "TRAVEL", "Beach"]);
    assert_eq!(normalize_manual_tags(&tags), strings(&["Travel", "旅行", "Beach"]));
    let many: Vec<String> = (0..50).map(|i| format!("t{i}")).collect();
    let kept = normalize_manual_tags(&many);
    assert_eq!(kept.len(), 40);
    assert_eq!(kept[39], "t39");
    // Editing the result again keeps it.
    assert_eq!(normalize_manual_tags(&kept), kept);
    let exact = "y".repeat(40);
    assert_eq!(normalize_manual_tags(&vec![exact.clone()]), vec![exact]);
}

#[test]
fn tag_lists_are_stored_as_json() {
    assert_eq!(manual_tags_json(&strings(&[" a ", "A", "b"])), Ok("[\"a\",\"b\"]".to_string()));
    assert_eq!(manual_tags_json(&Vec::new()), Ok("[]".to_string()));
    assert_eq!(initial_tags_json("wechat"), Ok("[\"微信图片\"]".to_string()));
    assert_eq!(initial_tags_json("other"), Ok("[]".to_string()));
    // What is stored reads back as the cleaned list.
    let odd = strings(&["say \"hi\"", "back\\slash", "tab\tx", "微信"]);
    let stored = manual_tags_json(&odd).expect("json");
    assert_eq!(parse_tags(&stored), normalize_manual_tags(&odd));
}

#[test]
fn album_names_and_kinds() {
    assert_eq!(album_name("  旅行  "), Ok("旅行".to_string()));
    assert_eq!(album_name("   "), Err(AppError::AlbumNameLength));
    assert_eq!(album_name(&"相".repeat(80)), Ok("相".repeat(80)));
    assert_eq!(album_name(&"相".repeat(81)), Err(AppError::AlbumNameLength));
    assert_eq!(ensure_manual_album("manual"), Ok(()));
    assert_eq!(ensure_manual_album("smart"), Err(AppError::SmartAlbumReadOnly));
    assert_eq!(AppError::AlbumNameLength.message(), "相册名称需要包含 1 至 80 个字符");
}

fn album(kind: &str, rule: Option<&str>) -> AlbumInfo {
    AlbumInfo { kind: kind.to_string(), rule_json: rule.map(str::to_string) }
}

#[test]
fn album_sizes_follow_their_rules() {
    assert_eq!(album_count(&album("manual", Some("{\"hasOcr\":true}"))), AlbumCount::Members);
    assert_eq!(album_count(&album("smart", Some("{\"hasOcr\":true}"))), AlbumCount::WithText);
    assert_eq!(
        album_count(&album("smart", Some("{\"favorite\":true,\"dateRange\":\"month\"}"))),
        AlbumCount::FavoritesThisMonth
    );
    assert_eq!(album_count(&album("smart", Some("{\"favorite\":true}"))), AlbumCount::Zero);
    assert_eq!(album_count(&album("smart", Some("not json"))), AlbumCount::Zero);
    assert_eq!(album_count(&album("smart", None)), AlbumCount::Zero);
}

fn input(library_path: &str, limit: u32) -> SaveSettingsInput {
    SaveSettingsInput {
        configured: false,
        library_path: library_path.to_string(),
        source_paths: strings(&[r"D:\a", r"D:\b"]),
        source_recursive: vec![(r"D:\b".to_string(), false)],
        locale: "zh-CN".to_string(),
        cloud_ai_enabled: true,
        ai_base_url: "https://x".to_string(),
        vision_model: "v".to_string(),
        embedding_model: "e".to_string(),
        ai_batch_limit: limit,
        api_key_configured: false,
        api_key: Some("secret".to_string()),
        telemetry_enabled: false,
    }
}

#[test]
fn saving_settings() {
    assert!(matches!(settings_for_save(input("  ", 20), true), Err(AppError::EmptyLibraryPath)));
    let saved = settings_for_save(input(r"D:\Library", 500), true).expect("saved");
    assert!(saved.configured);
    assert!(saved.api_key_configured);
    assert_eq!(saved.ai_batch_limit, 100);
    assert!(recursive_flag(&saved.source_recursive, &r"D:\a".to_string()));
    assert!(!recursive_flag(&saved.source_recursive, &r"D:\b".to_string()));
    assert_eq!(settings_from_input(input(r"D:\L", 0)).ai_batch_limit, 1);
    assert_eq!(AppError::EmptyLibraryPath.message(), "图库位置不能为空");
}

#[test]
fn default_and_loaded_settings() {
    let s = settings();
    assert!(!s.configured);
    assert_eq!(s.library_path, r"C:\Users\me\Pictures\PicNest Library");
    assert_eq!(s.source_paths, strings(&[r"C:\Users\me\Desktop", r"C:\Users\me\Downloads"]));
    assert_eq!(s.ai_batch_limit, 20);
    let fallback = default_settings(None, None, None);
    assert_eq!(fallback.library_path, r"C:\Users\Public\Pictures\PicNest Library");
    assert!(fallback.source_paths.is_empty());
    let mut loaded = settings();
    loaded.source_paths.push(r"E:\new".to_string());
    let loaded = normalize_loaded_settings(loaded);
    assert!(recursive_flag(&loaded.source_recursive, &r"E:\new".to_string()));
    assert_eq!(loaded.source_recursive.len(), 3);
}

#[test]
fn reply_content_is_taken_from_the_first_choice() {
    let body = r#"{"choices":[{"message":{"content":"```json\n{\"description\":\"海边\"}\n```"}}]}"#;
    assert_eq!(analysis_json(body), Ok(r#"{"description":"海边"}"#.to_string()));
    assert_eq!(analysis_json("not json"), Err(AiReplyError::NotJson));
    assert_eq!(analysis_json(r#"{"choices":[]}"#), Err(AiReplyError::NoContent));
    assert_eq!(analysis_json(r#"{"choices":[{"message":{"content":7}}]}"#), Err(AiReplyError::NoContent));
}

#[test]
fn default_folders_get_one_recursion_entry_each() {
    let same = default_settings(None, Some(r"C:\Users\me".to_string()), Some(r"C:\Users\me".to_string()));
    assert_eq!(same.source_paths.len(), 2);
    assert_eq!(same.source_recursive, vec![(r"C:\Users\me".to_string(), true)]);
    let two = default_settings(None, Some(r"C:\Desktop".to_string()), Some(r"C:\Downloads".to_string()));
    assert_eq!(
        two.source_recursive,
        vec![(r"C:\Desktop".to_string(), true), (r"C:\Downloads".to_string(), true)]
    );
}
