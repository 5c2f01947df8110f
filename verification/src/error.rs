//! The failures that the library's rules can report, and their messages.

use vstd::prelude::*;
use crate::text::{push_decimal, push_str, string_from_chars};

verus! {

/// A rule of the library refused a request.
#[derive(Debug, Clone, PartialEq, Eq, Structural)]
pub enum AppError {
    /// The folder is not one of the monitored source folders.
    SourceNotMonitored,
    /// The library folder is empty.
    EmptyLibraryPath,
    /// An album name must hold 1 to 80 characters.
    AlbumNameLength,
    /// Pictures cannot be added by hand to a smart album.
    SmartAlbumReadOnly,
    /// The AI endpoint or model name is empty.
    MissingConnectionFields,
    /// Cloud AI is switched off.
    CloudAiDisabled,
    /// The plan does not exist or has already run.
    PlanNotRunnable,
    /// The library volume lacks this many mebibytes for the plan.
    InsufficientSpace(u64),
    /// A file already exists at the target.
    TargetExists,
    /// The target of an interrupted move holds other content.
    ResumeTargetMismatch,
    /// The source of an interrupted move has changed.
    ResumeSourceChanged,
    /// The source file does not exist.
    SourceMissing,
    /// The source file no longer has the expected content.
    SourceChanged,
    /// The target path has no parent folder.
    InvalidTarget,
    /// The copied content does not match the expected hash.
    CopyVerifyFailed,
    /// Source or target changed, so a rollback stopped.
    RollbackConflict,
    /// The file is not a copy of the chosen picture.
    NotInDuplicateGroup,
    /// The file is the last available copy of the picture.
    LastAvailableCopy,
    /// No free target name was found.
    NoUniqueTarget,
    /// A scan is already running.
    ScanAlreadyRunning,
    /// Data could not be written as JSON.
    Serialization,
}

/// The user-facing message of each error.
pub open spec fn spec_error_message(e: AppError) -> Seq<char> {
    match e {
        AppError::SourceNotMonitored => "该文件夹不在监控列表中"@,
        AppError::EmptyLibraryPath => "图库位置不能为空"@,
        AppError::AlbumNameLength => "相册名称需要包含 1 至 80 个字符"@,
        AppError::SmartAlbumReadOnly => "智能相册由规则自动维护，不能手动添加图片"@,
        AppError::MissingConnectionFields => "接口地址和模型名称不能为空"@,
        AppError::CloudAiDisabled => "云端 AI 当前未启用"@,
        AppError::PlanNotRunnable => "整理预案不存在或已经执行"@,
        AppError::InsufficientSpace(mb) => "图库磁盘空间不足：还需要约 "@ + crate::text::decimal(
            mb as nat,
        ) + " MB"@,
        AppError::TargetExists => "目标位置已经存在同名文件"@,
        AppError::ResumeTargetMismatch => "中断任务的目标文件内容不匹配，操作已停止"@,
        AppError::ResumeSourceChanged => "中断任务的源文件内容已变化，操作已停止"@,
        AppError::SourceMissing => "源文件不存在"@,
        AppError::SourceChanged => "源文件内容已发生变化，操作已停止"@,
        AppError::InvalidTarget => "目标路径无效"@,
        AppError::CopyVerifyFailed => "复制后的内容校验失败"@,
        AppError::RollbackConflict => "源文件或目标文件内容已变化，回滚已停止"@,
        AppError::NotInDuplicateGroup => "文件不属于所选重复组"@,
        AppError::LastAvailableCopy => "这是该图片最后一个可用副本，不能移入回收站"@,
        AppError::NoUniqueTarget => "无法生成不冲突的目标文件名"@,
        AppError::ScanAlreadyRunning => "已有扫描任务正在运行"@,
        AppError::Serialization => "数据格式错误：无法写入 JSON"@,
    }
}

impl AppError {
    /// The message shown to the user.
    pub fn message(&self) -> (m: String)
        ensures
            m@ == spec_error_message(*self),
    {
        let text: &str = match self {
            AppError::SourceNotMonitored => "该文件夹不在监控列表中",
            AppError::EmptyLibraryPath => "图库位置不能为空",
            AppError::AlbumNameLength => "相册名称需要包含 1 至 80 个字符",
            AppError::SmartAlbumReadOnly => "智能相册由规则自动维护，不能手动添加图片",
            AppError::MissingConnectionFields => "接口地址和模型名称不能为空",
            AppError::CloudAiDisabled => "云端 AI 当前未启用",
            AppError::PlanNotRunnable => "整理预案不存在或已经执行",
            AppError::InsufficientSpace(mb) => {
                let mut v: Vec<char> = Vec::new();
                push_str(&mut v, "图库磁盘空间不足：还需要约 ");
                push_decimal(&mut v, *mb);
                push_str(&mut v, " MB");
                return string_from_chars(&v);
            },
            AppError::TargetExists => "目标位置已经存在同名文件",
            AppError::ResumeTargetMismatch => "中断任务的目标文件内容不匹配，操作已停止",
            AppError::ResumeSourceChanged => "中断任务的源文件内容已变化，操作已停止",
            AppError::SourceMissing => "源文件不存在",
            AppError::SourceChanged => "源文件内容已发生变化，操作已停止",
            AppError::InvalidTarget => "目标路径无效",
            AppError::CopyVerifyFailed => "复制后的内容校验失败",
            AppError::RollbackConflict => "源文件或目标文件内容已变化，回滚已停止",
            AppError::NotInDuplicateGroup => "文件不属于所选重复组",
            AppError::LastAvailableCopy => "这是该图片最后一个可用副本，不能移入回收站",
            AppError::NoUniqueTarget => "无法生成不冲突的目标文件名",
            AppError::ScanAlreadyRunning => "已有扫描任务正在运行",
            AppError::Serialization => "数据格式错误：无法写入 JSON",
        };
        String::from_str(text)
    }
}

} // verus!
