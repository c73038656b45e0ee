//! What the user can ask of the program.

use vstd::prelude::*;

use crate::config::TaskCaptureMode;
use crate::config::TaskPostAction;

pub mod after;
pub mod diagnostics;
pub mod edited;
pub mod ffmpeg;
pub mod history;
pub mod ocr;
pub mod pipeline;
pub mod plugins;
pub mod post_action;
pub mod recording;
pub mod thumbs;
pub mod uploads;
pub mod windows;

verus! {

/// What to capture.
#[derive(Clone, Copy, PartialEq, Eq, Structural, Debug)]
pub enum CaptureModeArg {
    Region,
    RegionLast,
    Window,
    Fullscreen,
    ActiveMonitor,
}

/// What to do with a capture.
#[derive(Clone, Copy, PartialEq, Eq, Structural, Debug)]
pub enum PostActionArg {
    Clipboard,
    SaveFile,
    Upload,
    SaveAndClipboard,
    OpenEditor,
    Prompt,
    DoNothing,
    CopyText,
}

impl CaptureModeArg {
    /// What a task captures. A recording begins with a region.
    pub fn from_task_mode(mode: TaskCaptureMode) -> (r: Self)
        ensures
            r == (match mode {
                TaskCaptureMode::Region => CaptureModeArg::Region,
                TaskCaptureMode::RegionLast => CaptureModeArg::RegionLast,
                TaskCaptureMode::Window => CaptureModeArg::Window,
                TaskCaptureMode::Fullscreen => CaptureModeArg::Fullscreen,
                TaskCaptureMode::ActiveMonitor => CaptureModeArg::ActiveMonitor,
                TaskCaptureMode::RegionGif => CaptureModeArg::Region,
                TaskCaptureMode::RegionMp4 => CaptureModeArg::Region,
            }),
    {
        match mode {
            TaskCaptureMode::Region => CaptureModeArg::Region,
            TaskCaptureMode::RegionLast => CaptureModeArg::RegionLast,
            TaskCaptureMode::Window => CaptureModeArg::Window,
            TaskCaptureMode::Fullscreen => CaptureModeArg::Fullscreen,
            TaskCaptureMode::ActiveMonitor => CaptureModeArg::ActiveMonitor,
            TaskCaptureMode::RegionGif => CaptureModeArg::Region,
            TaskCaptureMode::RegionMp4 => CaptureModeArg::Region,
        }
    }
}

impl PostActionArg {
    /// What a task does with a capture.
    pub fn from_task_action(action: TaskPostAction) -> (r: Self)
        ensures
            r == (match action {
                TaskPostAction::Clipboard => PostActionArg::Clipboard,
                TaskPostAction::SaveFile => PostActionArg::SaveFile,
                TaskPostAction::Upload => PostActionArg::Upload,
                TaskPostAction::SaveAndClipboard => PostActionArg::SaveAndClipboard,
                TaskPostAction::OpenEditor => PostActionArg::OpenEditor,
                TaskPostAction::Prompt => PostActionArg::Prompt,
                TaskPostAction::DoNothing => PostActionArg::DoNothing,
                TaskPostAction::CopyText => PostActionArg::CopyText,
            }),
    {
        match action {
            TaskPostAction::Clipboard => PostActionArg::Clipboard,
            TaskPostAction::SaveFile => PostActionArg::SaveFile,
            TaskPostAction::Upload => PostActionArg::Upload,
            TaskPostAction::SaveAndClipboard => PostActionArg::SaveAndClipboard,
            TaskPostAction::OpenEditor => PostActionArg::OpenEditor,
            TaskPostAction::Prompt => PostActionArg::Prompt,
            TaskPostAction::DoNothing => PostActionArg::DoNothing,
            TaskPostAction::CopyText => PostActionArg::CopyText,
        }
    }
}

/// Tasks of different modes capture different things; only recordings begin as a
/// plain region does.
pub proof fn lemma_task_modes_stay_apart(
    a: TaskCaptureMode,
    b: TaskCaptureMode,
    p: CaptureModeArg,
    q: CaptureModeArg,
)
    requires
        call_ensures(CaptureModeArg::from_task_mode, (a,), p),
        call_ensures(CaptureModeArg::from_task_mode, (b,), q),
    ensures
        a == b ==> p == q,
        p == q ==> a == b || p == CaptureModeArg::Region,
        p == CaptureModeArg::Region <==> a == TaskCaptureMode::Region || a
            == TaskCaptureMode::RegionGif || a == TaskCaptureMode::RegionMp4,
        p == CaptureModeArg::RegionLast <==> a == TaskCaptureMode::RegionLast,
        p == CaptureModeArg::Window <==> a == TaskCaptureMode::Window,
        p == CaptureModeArg::Fullscreen <==> a == TaskCaptureMode::Fullscreen,
        p == CaptureModeArg::ActiveMonitor <==> a == TaskCaptureMode::ActiveMonitor,
{
}

/// Each action of a task is its own and no other's.
pub proof fn lemma_task_actions_stay_apart(
    a: TaskPostAction,
    b: TaskPostAction,
    p: PostActionArg,
    q: PostActionArg,
)
    requires
        call_ensures(PostActionArg::from_task_action, (a,), p),
        call_ensures(PostActionArg::from_task_action, (b,), q),
    ensures
        p == q <==> a == b,
        p == PostActionArg::Clipboard <==> a == TaskPostAction::Clipboard,
        p == PostActionArg::SaveFile <==> a == TaskPostAction::SaveFile,
        p == PostActionArg::Upload <==> a == TaskPostAction::Upload,
        p == PostActionArg::SaveAndClipboard <==> a == TaskPostAction::SaveAndClipboard,
        p == PostActionArg::OpenEditor <==> a == TaskPostAction::OpenEditor,
        p == PostActionArg::Prompt <==> a == TaskPostAction::Prompt,
        p == PostActionArg::DoNothing <==> a == TaskPostAction::DoNothing,
        p == PostActionArg::CopyText <==> a == TaskPostAction::CopyText,
{
}

} // verus!
