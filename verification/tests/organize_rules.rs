use std::collections::HashMap;

use picnest::error::AppError;
use picnest::library::content_hash;
use picnest::models::OrganizePlanItem;
use picnest::moves::{
    fresh_move, fresh_next, recovered_item, resume_move, resume_next, rollback_action, MoveAction,
    Obs, RecoveredItem, RollbackAction,
};
use picnest::organize::{
    apply_gate, archive_month, candidate_target, check_disk_space, check_trash_allowed,
    is_windows_reserved_name, organize_activity, organize_reason, pending_copy_total,
    rollback_activity, sanitize_filename, status_after_apply, status_after_recovery,
    status_after_rollback, summarize_plan, target_dir, PendingMove, PlanStatus, ReservedTargets,
    plan_sums_fit, target_step, TargetStep, TARGET_ATTEMPTS,
};
use picnest::paths::same_volume;

/// A small in-memory file system on which the move protocols are run.
struct Disk {
    files: HashMap<String, Vec<u8>>,
    corrupt_copies: bool,
}

impl Disk {
    fn new() -> Self {
        Disk { files: HashMap::new(), corrupt_copies: false }
    }

    fn check(&self, path: &str, expected: &str) -> Obs {
        match self.files.get(path) {
            Some(bytes) if content_hash(bytes) == expected => Obs::Yes,
            Some(_) => Obs::No,
            None => Obs::Io,
        }
    }
}

fn run_fresh(disk: &mut Disk, source: &str, target: &str, expected: &str) -> Result<(), Option<AppError>> {
    let mut m = fresh_move(same_volume(source, target));
    let temp = format!("{target}.picnest-tmp");
    loop {
        match fresh_next(&m) {
            MoveAction::CheckSource => m.source_exists = Some(disk.files.contains_key(source)),
            MoveAction::CheckTarget => m.target_exists = Some(disk.files.contains_key(target)),
            MoveAction::HashSource => m.source_hash = Some(disk.check(source, expected)),
            MoveAction::PrepareParent => m.parent = Some(Obs::Yes),
            MoveAction::TryRename => {
                let bytes = disk.files.remove(source).expect("source");
                disk.files.insert(target.to_string(), bytes);
                m.renamed = Some(true);
            }
            MoveAction::CopyToTemp => {
                let mut bytes = disk.files[source].clone();
                if disk.corrupt_copies {
                    bytes.push(0);
                }
                disk.files.insert(temp.clone(), bytes);
                m.copy = Some(disk.check(&temp, expected));
            }
            MoveAction::PlaceTemp => {
                let bytes = disk.files.remove(&temp).expect("temp");
                disk.files.insert(target.to_string(), bytes);
                m.placed = Some(true);
            }
            MoveAction::RemoveSource => {
                disk.files.remove(source);
                m.source_removed = Some(true);
            }
            MoveAction::DiscardTempAndFail(e) => {
                disk.files.remove(&temp);
                return Err(Some(e));
            }
            MoveAction::Done => return Ok(()),
            MoveAction::Fail(e) => return Err(Some(e)),
            _ => return Err(None),
        }
    }
}

fn run_resume(
    disk: &mut Disk,
    source: &str,
    target: &str,
    expected: &str,
    allow_resume: bool,
) -> Result<(), Option<AppError>> {
    let mut m = resume_move(allow_resume);
    loop {
        match resume_next(&m) {
            MoveAction::CheckTarget => m.target_exists = Some(disk.files.contains_key(target)),
            MoveAction::HashTarget => m.target_hash = Some(disk.check(target, expected)),
            MoveAction::CheckSource => m.source_exists = Some(disk.files.contains_key(source)),
            MoveAction::HashSource => m.source_hash = Some(disk.check(source, expected)),
            MoveAction::RemoveSource => {
                disk.files.remove(source);
                m.source_removed = Some(true);
            }
            MoveAction::StartFresh => return run_fresh(disk, source, target, expected),
            MoveAction::Done => return Ok(()),
            MoveAction::Fail(e) => return Err(Some(e)),
            _ => return Err(None),
        }
    }
}

fn first_free_target(dir: &[char], name: &str, hash: &str, reserved: &ReservedTargets) -> Option<String> {
    let mut attempt = 0;
    loop {
        let candidate = candidate_target(dir, name, hash, attempt);
        match target_step(attempt, reserved.contains(&candidate)) {
            TargetStep::Use { .. } => return Some(candidate),
            TargetStep::Next(next) => attempt = next,
            TargetStep::GiveUp => return None,
        }
    }
}

#[test]
fn target_steps_use_the_first_free_candidate() {
    assert_eq!(target_step(0, false), TargetStep::Use { conflict: false });
    assert_eq!(target_step(3, false), TargetStep::Use { conflict: true });
    assert_eq!(target_step(0, true), TargetStep::Next(1));
    assert_eq!(target_step(TARGET_ATTEMPTS - 2, true), TargetStep::Next(TARGET_ATTEMPTS - 1));
    assert_eq!(target_step(TARGET_ATTEMPTS - 1, true), TargetStep::GiveUp);
}

#[test]
fn sanitizes_windows_reserved_characters() {
    assert_eq!(sanitize_filename("trip:day/one?.jpg"), "trip_day_one_.jpg");
    assert_eq!(sanitize_filename("CON.jpg"), "_CON.jpg");
}

#[test]
fn verified_move_keeps_content_intact() {
    let mut disk = Disk::new();
    let source = r"C:\temp\source.jpg";
    let target = r"C:\temp\archive\target.jpg";
    disk.files.insert(source.to_string(), b"picnest-photo-fixture".to_vec());
    let expected_hash = content_hash(&disk.files[source]);

    run_fresh(&mut disk, source, target, &expected_hash).expect("safe move");

    assert!(!disk.files.contains_key(source));
    assert!(disk.files.contains_key(target));
    assert_eq!(content_hash(&disk.files[target]), expected_hash);
}

#[test]
fn resume_finishes_only_a_verified_copy() {
    let mut disk = Disk::new();
    let source = r"C:\temp\source.jpg";
    let target = r"C:\temp\target.jpg";
    disk.files.insert(source.to_string(), b"verified-photo".to_vec());
    disk.files.insert(target.to_string(), b"verified-photo".to_vec());
    let expected_hash = content_hash(&disk.files[source]);

    run_resume(&mut disk, source, target, &expected_hash, true).expect("resume");

    assert!(!disk.files.contains_key(source));
    assert_eq!(content_hash(&disk.files[target]), expected_hash);
}

#[test]
fn reserved_targets_do_not_collide_within_one_plan() {
    // No file exists and no index entry names a candidate: only the
    // reservations of the plan make a target unavailable.
    let dir: Vec<char> = r"D:\\Photos\\2026\\08\\".chars().collect();
    let base = r"D:\\Photos\\2026\\08\\IMG_1.jpg";
    let mut reserved = ReservedTargets::new();
    let first = first_free_target(&dir, "IMG_1.jpg", "abcdef012345", &reserved).expect("first");
    reserved.insert(&first);
    let second = first_free_target(&dir, "IMG_1.jpg", "abcdef012345", &reserved).expect("second");

    assert_eq!(first, base);
    assert_ne!(first, second);
    assert!(second.contains("abcdef01"));
}

#[test]
fn cross_volume_move_copies_verifies_and_then_deletes() {
    let mut disk = Disk::new();
    let source = r"D:\inbox\a.jpg";
    let target = r"E:\Library\2026\01\a.jpg";
    disk.files.insert(source.to_string(), b"pixels".to_vec());
    let expected = content_hash(b"pixels");
    run_fresh(&mut disk, source, target, &expected).expect("move");
    assert!(!disk.files.contains_key(source));
    assert_eq!(disk.files[target], b"pixels".to_vec());
    assert_eq!(disk.files.len(), 1);
}

#[test]
fn failed_copy_verification_keeps_the_source() {
    let mut disk = Disk::new();
    disk.corrupt_copies = true;
    let source = r"D:\inbox\a.jpg";
    let target = r"E:\Library\a.jpg";
    disk.files.insert(source.to_string(), b"pixels".to_vec());
    let expected = content_hash(b"pixels");
    assert_eq!(run_fresh(&mut disk, source, target, &expected), Err(Some(AppError::CopyVerifyFailed)));
    assert!(disk.files.contains_key(source));
    assert!(!disk.files.contains_key(target));
    assert_eq!(disk.files.len(), 1);
}

#[test]
fn fresh_move_refusals() {
    let expected = content_hash(b"pixels");
    let mut disk = Disk::new();
    assert_eq!(run_fresh(&mut disk, r"D:\a.jpg", r"D:\b.jpg", &expected), Err(Some(AppError::SourceMissing)));
    disk.files.insert(r"D:\a.jpg".to_string(), b"pixels".to_vec());
    disk.files.insert(r"D:\b.jpg".to_string(), b"other".to_vec());
    assert_eq!(run_fresh(&mut disk, r"D:\a.jpg", r"D:\b.jpg", &expected), Err(Some(AppError::TargetExists)));
    disk.files.insert(r"D:\a.jpg".to_string(), b"changed".to_vec());
    assert_eq!(run_fresh(&mut disk, r"D:\a.jpg", r"D:\c.jpg", &expected), Err(Some(AppError::SourceChanged)));
    assert_eq!(disk.files.len(), 2);
}

#[test]
fn resume_refuses_foreign_targets() {
    let expected = content_hash(b"pixels");
    let mut disk = Disk::new();
    disk.files.insert(r"D:\a.jpg".to_string(), b"pixels".to_vec());
    disk.files.insert(r"D:\b.jpg".to_string(), b"other".to_vec());
    assert_eq!(
        run_resume(&mut disk, r"D:\a.jpg", r"D:\b.jpg", &expected, true),
        Err(Some(AppError::ResumeTargetMismatch))
    );
    assert_eq!(
        run_resume(&mut disk, r"D:\a.jpg", r"D:\b.jpg", &expected, false),
        Err(Some(AppError::TargetExists))
    );
    // A verified target with a changed source stops too, and keeps both.
    disk.files.insert(r"D:\b.jpg".to_string(), b"pixels".to_vec());
    disk.files.insert(r"D:\a.jpg".to_string(), b"edited".to_vec());
    assert_eq!(
        run_resume(&mut disk, r"D:\a.jpg", r"D:\b.jpg", &expected, true),
        Err(Some(AppError::ResumeSourceChanged))
    );
    assert_eq!(disk.files.len(), 2);
    // Without a target, resuming is a fresh move.
    let mut fresh = Disk::new();
    fresh.files.insert(r"D:\a.jpg".to_string(), b"pixels".to_vec());
    run_resume(&mut fresh, r"D:\a.jpg", r"D:\b.jpg", &expected, true).expect("fresh");
    assert!(fresh.files.contains_key(r"D:\b.jpg"));
}

#[test]
fn rollback_and_recovery_decisions() {
    assert_eq!(rollback_action(true, false, true, false), RollbackAction::AlreadyInPlace);
    assert_eq!(rollback_action(true, false, false, false), RollbackAction::Conflict);
    assert_eq!(rollback_action(false, true, false, true), RollbackAction::MoveBack);
    assert_eq!(rollback_action(true, true, true, true), RollbackAction::TrashCopy);
    assert_eq!(rollback_action(true, true, true, false), RollbackAction::Conflict);
    assert_eq!(rollback_action(false, false, false, false), RollbackAction::Conflict);
    assert_eq!(recovered_item(false, true, false, true), RecoveredItem::Moved);
    assert_eq!(recovered_item(false, true, false, false), RecoveredItem::Failed);
    assert_eq!(recovered_item(true, false, false, false), RecoveredItem::Planned);
    assert_eq!(recovered_item(true, true, true, true), RecoveredItem::Planned);
    assert_eq!(recovered_item(true, true, true, false), RecoveredItem::Failed);
}

#[test]
fn windows_reserved_names() {
    assert!(is_windows_reserved_name("nul.txt"));
    assert!(is_windows_reserved_name("com7.jpg"));
    assert!(is_windows_reserved_name("LPT9"));
    assert!(!is_windows_reserved_name("COM0.png"));
    assert!(!is_windows_reserved_name("console.jpg"));
    assert_eq!(sanitize_filename("COM1.png"), "_COM1.png");
    assert_eq!(sanitize_filename("  . "), "untitled-image");
    assert_eq!(sanitize_filename(" a<b>|c*.jpg. "), "a_b__c_.jpg");
}

#[test]
fn archive_folders_and_candidate_names() {
    assert_eq!(archive_month("2024-03-05T10:00:00+08:00", 2026, 8), (2024, 3));
    assert_eq!(archive_month("2024-03-01T01:00:00+08:00", 2026, 8), (2024, 2));
    assert_eq!(archive_month("not a date", 2026, 8), (2026, 8));
    let dir = target_dir(r"D:\Library", 2026, 8);
    assert_eq!(dir.iter().collect::<String>(), r"D:\Library\2026\08");
    assert_eq!(candidate_target(&dir, "a.jpg", "0123456789", 0), r"D:\Library\2026\08\a.jpg");
    assert_eq!(candidate_target(&dir, "a.jpg", "0123456789", 1), r"D:\Library\2026\08\a_01234567.jpg");
    assert_eq!(candidate_target(&dir, "a.jpg", "0123456789", 3), r"D:\Library\2026\08\a_01234567-2.jpg");
    assert_eq!(candidate_target(&dir, "README", "abc", 1), r"D:\Library\2026\08\README_abc");
}

#[test]
fn reasons_and_activity_texts() {
    assert_eq!(organize_reason("screenshot", 2026, 8), "检测到截图特征，按拍摄月份归档");
    assert_eq!(organize_reason("camera", 2026, 8), "按拍摄时间 2026-08 归档");
    assert_eq!(
        organize_activity(3, 0),
        ("整理了 3 张图片".to_string(), "已按拍摄月份归档到 PicNest 图库".to_string())
    );
    assert_eq!(organize_activity(1, 2).1, "部分文件未移动，原文件仍保留");
    assert_eq!(
        rollback_activity(true, 2, 0),
        ("撤销了 2 张图片的整理".to_string(), "图片已恢复到原位置".to_string())
    );
    assert_eq!(rollback_activity(false, 0, 1).0, "回滚了 0 张图片的整理");
}

#[test]
fn plan_states() {
    assert_eq!(apply_gate(Some(PlanStatus::Planned)), Ok(false));
    assert_eq!(apply_gate(Some(PlanStatus::Partial)), Ok(true));
    assert_eq!(apply_gate(Some(PlanStatus::Failed)), Ok(true));
    assert_eq!(apply_gate(Some(PlanStatus::Completed)), Err(AppError::PlanNotRunnable));
    assert_eq!(apply_gate(None), Err(AppError::PlanNotRunnable));
    assert_eq!(status_after_apply(0, 5), PlanStatus::Completed);
    assert_eq!(status_after_apply(2, 1), PlanStatus::Partial);
    assert_eq!(status_after_apply(2, 0), PlanStatus::Failed);
    assert_eq!(status_after_recovery(3, 0, 0), PlanStatus::Completed);
    assert_eq!(status_after_recovery(1, 1, 0), PlanStatus::Partial);
    assert_eq!(status_after_recovery(0, 0, 2), PlanStatus::Failed);
    assert_eq!(status_after_rollback(0), PlanStatus::Undone);
    assert_eq!(status_after_rollback(1), PlanStatus::RollbackFailed);
    assert_eq!(PlanStatus::RollbackFailed.text(), "rollback_failed");
    assert_eq!(PlanStatus::from_text("partial"), Some(PlanStatus::Partial));
    assert_eq!(PlanStatus::from_text("weird"), None);
}

fn item(source: &str, target: &str, bytes: i64, conflict: bool) -> OrganizePlanItem {
    OrganizePlanItem {
        asset_id: 1,
        filename: "a.jpg".to_string(),
        source_path: source.to_string(),
        target_path: target.to_string(),
        reason: String::new(),
        conflict,
        bytes,
    }
}

#[test]
fn plan_totals_and_disk_space() {
    let items = vec![
        item(r"D:\in\a.jpg", r"D:\Library\a.jpg", 100, false),
        item(r"C:\in\b.jpg", r"D:\Library\b.jpg", 50, true),
        item(r"E:\in\c.jpg", r"D:\Library\c.jpg", 25, false),
    ];
    let plan = summarize_plan("p1".to_string(), items, 60);
    assert_eq!(plan.id, "p1");
    assert_eq!(plan.items.len(), 3);
    assert_eq!(plan.total_bytes, 175);
    assert_eq!(plan.conflicts, 1);
    assert_eq!(plan.required_copy_bytes, 75);
    assert_eq!(plan.available_bytes, 60);
    assert!(!plan.disk_space_ok);
    let huge = summarize_plan("p2".to_string(), Vec::new(), u64::MAX);
    assert_eq!(huge.available_bytes, i64::MAX);
    assert!(huge.disk_space_ok);

    assert_eq!(check_disk_space(10, 10), Ok(()));
    assert_eq!(check_disk_space(1_048_577, 0), Err(AppError::InsufficientSpace(2)));
    assert_eq!(check_disk_space(1, 0), Err(AppError::InsufficientSpace(1)));
    assert_eq!(
        AppError::InsufficientSpace(2).message(),
        "图库磁盘空间不足：还需要约 2 MB"
    );

    let pending = vec![
        PendingMove { source_path: r"C:\a".to_string(), target_path: r"D:\a".to_string(), bytes: 7, target_exists: false },
        PendingMove { source_path: r"C:\b".to_string(), target_path: r"D:\b".to_string(), bytes: 9, target_exists: true },
        PendingMove { source_path: r"D:\c".to_string(), target_path: r"D:\x\c".to_string(), bytes: 11, target_exists: false },
    ];
    assert_eq!(pending_copy_total(&pending), 7);
}

#[test]
fn trash_keeps_the_last_copy() {
    assert_eq!(check_trash_allowed(true, 2), Ok(()));
    assert_eq!(check_trash_allowed(true, 1), Err(AppError::LastAvailableCopy));
    assert_eq!(check_trash_allowed(false, 5), Err(AppError::NotInDuplicateGroup));
}

#[test]
fn fresh_move_refuses_a_target_without_folder() {
    let mut m = fresh_move(true);
    m.source_exists = Some(true);
    m.target_exists = Some(false);
    m.source_hash = Some(Obs::Yes);
    m.parent = Some(Obs::No);
    assert_eq!(fresh_next(&m), MoveAction::Fail(AppError::InvalidTarget));
    m.parent = Some(Obs::Io);
    assert_eq!(fresh_next(&m), MoveAction::FailIo);
    m.parent = Some(Obs::Yes);
    assert_eq!(fresh_next(&m), MoveAction::TryRename);
    m.renamed = Some(false);
    assert_eq!(fresh_next(&m), MoveAction::CopyToTemp);
    m.copy = Some(Obs::Yes);
    m.placed = Some(true);
    m.source_removed = Some(false);
    assert_eq!(fresh_next(&m), MoveAction::RemoveTargetAndFailIo);
}

#[test]
fn every_error_has_its_message() {
    let cases = [
        (AppError::SourceNotMonitored, "该文件夹不在监控列表中"),
        (AppError::EmptyLibraryPath, "图库位置不能为空"),
        (AppError::AlbumNameLength, "相册名称需要包含 1 至 80 个字符"),
        (AppError::SmartAlbumReadOnly, "智能相册由规则自动维护，不能手动添加图片"),
        (AppError::MissingConnectionFields, "接口地址和模型名称不能为空"),
        (AppError::CloudAiDisabled, "云端 AI 当前未启用"),
        (AppError::PlanNotRunnable, "整理预案不存在或已经执行"),
        (AppError::InsufficientSpace(12), "图库磁盘空间不足：还需要约 12 MB"),
        (AppError::TargetExists, "目标位置已经存在同名文件"),
        (AppError::ResumeTargetMismatch, "中断任务的目标文件内容不匹配，操作已停止"),
        (AppError::ResumeSourceChanged, "中断任务的源文件内容已变化，操作已停止"),
        (AppError::SourceMissing, "源文件不存在"),
        (AppError::SourceChanged, "源文件内容已发生变化，操作已停止"),
        (AppError::InvalidTarget, "目标路径无效"),
        (AppError::CopyVerifyFailed, "复制后的内容校验失败"),
        (AppError::RollbackConflict, "源文件或目标文件内容已变化，回滚已停止"),
        (AppError::NotInDuplicateGroup, "文件不属于所选重复组"),
        (AppError::LastAvailableCopy, "这是该图片最后一个可用副本，不能移入回收站"),
        (AppError::NoUniqueTarget, "无法生成不冲突的目标文件名"),
        (AppError::ScanAlreadyRunning, "已有扫描任务正在运行"),
        (AppError::Serialization, "数据格式错误：无法写入 JSON"),
    ];
    for (error, message) in cases {
        assert_eq!(error.message(), message);
    }
}

#[test]
fn sanitized_names_are_never_device_names_and_are_stable() {
    for name in ["con", "Lpt3.txt", "aux.tar.gz", "nul", "  PRN  ", "com9.", "COM0.png", "...", " \t. . \n", "a:b", "x y. ."] {
        let once = sanitize_filename(name);
        assert!(!once.is_empty());
        assert_eq!(sanitize_filename(&once), once, "{name}");
    }
    assert_eq!(sanitize_filename("con"), "_con");
    assert_eq!(sanitize_filename("Lpt3.txt"), "_Lpt3.txt");
    assert_eq!(sanitize_filename("COM0.png"), "COM0.png");
    assert_eq!(sanitize_filename("..."), "untitled-image");
    assert_eq!(sanitize_filename(" \t. . \n"), "untitled-image");
    assert_eq!(sanitize_filename("x y. ."), "x y");
}

#[test]
fn plan_sums_fit_only_while_every_running_sum_fits() {
    let small = vec![item(r"C:\a.jpg", r"D:\b.jpg", 10, false), item(r"C:\c.jpg", r"C:\d.jpg", 5, false)];
    assert!(plan_sums_fit(&small));
    assert!(plan_sums_fit(&Vec::new()));
    let total_over = vec![item(r"C:\a.jpg", r"C:\b.jpg", i64::MAX, false), item(r"C:\c.jpg", r"C:\d.jpg", 1, false)];
    assert!(!plan_sums_fit(&total_over));
    // A dip below zero and back keeps every running sum in range.
    let back = vec![item(r"C:\a.jpg", r"C:\b.jpg", i64::MAX, false), item(r"C:\c.jpg", r"C:\d.jpg", -1, false)];
    assert!(plan_sums_fit(&back));
}
