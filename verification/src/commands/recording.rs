//! Recordings: when one starts and stops, what it is saved as, and how one is
//! trimmed.

use vstd::prelude::*;

use crate::capture::Rectangle;
use crate::commands::pipeline::Selection;
use crate::config::CaptureConfig;
use crate::config::CaptureTask;
use crate::config::TaskCaptureMode;
use crate::config::TaskPostAction;
use crate::config::TaskUploadTarget;
use crate::commands::CaptureModeArg;
use crate::commands::PostActionArg;
use crate::paths;
use crate::text;

verus! {

// ---- tasks -----------------------------------------------------------------------------------

/// What a task does when it runs.
#[derive(Clone, Copy, PartialEq, Eq, Structural, Debug)]
pub enum TaskRun {
    /// It records.
    Record { mp4: bool },
    /// It captures.
    Capture {
        mode: CaptureModeArg,
        post: PostActionArg,
        target: Option<TaskUploadTarget>,
        delay_ms: Option<u32>,
    },
}

/// The first task with the id is at `i`.
pub open spec fn is_task_at(tasks: Seq<CaptureTask>, id: Seq<char>, i: int) -> bool {
    &&& 0 <= i < tasks.len()
    &&& tasks[i].id@ == id
    &&& forall|k: int| 0 <= k < i ==> (#[trigger] tasks[k]).id@ != id
}

/// The task with the id.
pub fn find_task(tasks: &[CaptureTask], id: &str) -> (r: Option<usize>)
    ensures
        match r {
            Some(i) => is_task_at(tasks@, id@, i as int),
            None => forall|k: int| 0 <= k < tasks@.len() ==> (#[trigger] tasks@[k]).id@ != id@,
        },
{
    for i in 0..tasks.len()
        invariant
            forall|k: int| 0 <= k < i ==> (#[trigger] tasks@[k]).id@ != id@,
    {
        if text::same(tasks[i].id.as_str(), id) {
            return Some(i);
        }
    }
    None
}

/// What a task does when it runs.
pub fn run_task(task: &CaptureTask) -> (r: TaskRun)
    ensures
        match task.capture_mode {
            TaskCaptureMode::RegionGif => r == (TaskRun::Record { mp4: false }),
            TaskCaptureMode::RegionMp4 => r == (TaskRun::Record { mp4: true }),
            _ => r matches TaskRun::Capture { mode, post, target, delay_ms } && {
                &&& mode == (match task.capture_mode {
                    TaskCaptureMode::RegionLast => CaptureModeArg::RegionLast,
                    TaskCaptureMode::Window => CaptureModeArg::Window,
                    TaskCaptureMode::Fullscreen => CaptureModeArg::Fullscreen,
                    TaskCaptureMode::ActiveMonitor => CaptureModeArg::ActiveMonitor,
                    _ => CaptureModeArg::Region,
                })
                &&& post == (match task.post_action {
                    TaskPostAction::Clipboard => PostActionArg::Clipboard,
                    TaskPostAction::SaveFile => PostActionArg::SaveFile,
                    TaskPostAction::Upload => PostActionArg::Upload,
                    TaskPostAction::SaveAndClipboard => PostActionArg::SaveAndClipboard,
                    TaskPostAction::OpenEditor => PostActionArg::OpenEditor,
                    TaskPostAction::Prompt => PostActionArg::Prompt,
                    TaskPostAction::DoNothing => PostActionArg::DoNothing,
                    TaskPostAction::CopyText => PostActionArg::CopyText,
                })
                &&& target == task.target_destination
                &&& delay_ms == task.delay_ms
            },
        },
{
    match task.capture_mode {
        TaskCaptureMode::RegionGif => TaskRun::Record { mp4: false },
        TaskCaptureMode::RegionMp4 => TaskRun::Record { mp4: true },
        _ => TaskRun::Capture {
            mode: CaptureModeArg::from_task_mode(task.capture_mode),
            post: PostActionArg::from_task_action(task.post_action),
            target: task.target_destination,
            delay_ms: task.delay_ms,
        },
    }
}

// ---- starting and stopping -------------------------------------------------------------------

#[derive(Clone, Copy, PartialEq, Eq, Structural, Debug)]
pub enum RecordingState {
    Idle,
    Recording,
    /// The recording is being saved.
    Processing,
}

/// The recording that is under way.
#[derive(Debug)]
pub struct Recorder {
    state: RecordingState,
    task_id: Option<String>,
}

/// What a task that records leads to.
#[derive(Clone, Copy, PartialEq, Eq, Structural, Debug)]
pub enum RecordStep {
    /// End the selection that is under way.
    CancelSelection,
    /// Stop the recording: its own hotkey was pressed again.
    Stop,
    /// Tell the user that another task is recording.
    Refuse,
    /// Nothing.
    Skip,
    /// Tell the user that the encoder is missing.
    MissingEncoder,
    /// Let the user select a region. No capture starts meanwhile.
    Select,
}

impl Recorder {
    pub closed spec fn spec_state(&self) -> RecordingState {
        self.state
    }

    /// The task that records.
    pub closed spec fn spec_task(&self) -> Option<Seq<char>> {
        text::opt_owned(self.task_id)
    }

    /// Nothing is being recorded.
    pub fn new() -> (r: Self)
        ensures
            r.spec_state() == RecordingState::Idle,
            r.spec_task() is None,
    {
        Recorder { state: RecordingState::Idle, task_id: None }
    }

    pub fn state(&self) -> (r: RecordingState)
        ensures
            r == self.spec_state(),
    {
        self.state
    }

    pub open spec fn triggered(
        &self,
        task: Seq<char>,
        mp4: bool,
        selecting: bool,
        encoder: bool,
        busy: bool,
    ) -> RecordStep {
        if selecting {
            RecordStep::CancelSelection
        } else if self.spec_state() == RecordingState::Recording {
            if self.spec_task() == Some(task) {
                RecordStep::Stop
            } else {
                RecordStep::Refuse
            }
        } else if self.spec_state() == RecordingState::Processing {
            RecordStep::Skip
        } else if mp4 && !encoder {
            RecordStep::MissingEncoder
        } else if busy {
            RecordStep::Skip
        } else {
            RecordStep::Select
        }
    }

    /// A task that records was triggered: what it leads to. `selecting` is
    /// whether a selection is under way, `encoder` whether there is one for
    /// videos, and `busy` whether a capture is under way.
    pub fn run_gif_task(
        &self,
        task_id: &str,
        mp4: bool,
        selecting: bool,
        encoder: bool,
        busy: bool,
    ) -> (r: RecordStep)
        ensures
            r == self.triggered(task_id@, mp4, selecting, encoder, busy),
    {
        if selecting {
            return RecordStep::CancelSelection;
        }
        match self.state {
            RecordingState::Recording => match &self.task_id {
                Some(id) => if text::same(id.as_str(), task_id) {
                    RecordStep::Stop
                } else {
                    RecordStep::Refuse
                },
                None => RecordStep::Refuse,
            },
            RecordingState::Processing => RecordStep::Skip,
            RecordingState::Idle => if mp4 && !encoder {
                RecordStep::MissingEncoder
            } else if busy {
                RecordStep::Skip
            } else {
                RecordStep::Select
            },
        }
    }

    /// The recording of the task has begun.
    pub fn start_gif_recording(&mut self, task_id: &str)
        ensures
            final(self).spec_state() == RecordingState::Recording,
            final(self).spec_task() == Some(task_id@),
    {
        self.state = RecordingState::Recording;
        self.task_id = Some(task_id.to_owned());
    }

    /// The user wants the recording to stop.
    pub fn stop_gif_recording(&mut self)
        ensures
            final(self).spec_state() == old(self).spec_state(),
            final(self).spec_task() is None,
    {
        self.task_id = None;
    }

    /// Whether the recording is over: the user stopped it, or the recorder did.
    pub fn is_over(&self, still_recording: bool) -> (r: bool)
        ensures
            r == (self.spec_task() is None || !still_recording),
    {
        self.task_id.is_none() || !still_recording
    }

    /// The recording is being saved.
    pub fn finalize_gif_recording(&mut self)
        ensures
            final(self).spec_state() == RecordingState::Processing,
            final(self).spec_task() == old(self).spec_task(),
    {
        self.state = RecordingState::Processing;
    }

    /// The recording was saved, or could not be.
    pub fn saved(&mut self)
        ensures
            final(self).spec_state() == RecordingState::Idle,
            final(self).spec_task() is None,
    {
        self.state = RecordingState::Idle;
        self.task_id = None;
    }
}

/// While one task records no other starts to, and pressing the hotkey of the one
/// that does stops it.
pub proof fn lemma_one_recording_at_a_time(
    r: Recorder,
    task: Seq<char>,
    mp4: bool,
    encoder: bool,
    busy: bool,
)
    requires
        r.spec_state() == RecordingState::Recording,
    ensures
        r.triggered(task, mp4, false, encoder, busy) == (if r.spec_task() == Some(task) {
            RecordStep::Stop
        } else {
            RecordStep::Refuse
        }),
{
}

/// What the user is told when another task is recording.
pub fn already_recording(active_name: Option<&str>) -> (r: String)
    ensures
        r@ == "already recording '"@ + (match text::opt(active_name) {
            Some(n) => n,
            None => "another task"@,
        }) + "' — press its hotkey again to stop first"@,
{
    let mut s = String::from_str("already recording '");
    s.append(
        match active_name {
            Some(n) => n,
            None => "another task",
        },
    );
    s.append("' — press its hotkey again to stop first");
    s
}

/// The region to record. Only a region can be recorded.
pub fn region_to_record(selection: Selection) -> (r: Option<Rectangle>)
    ensures
        r == (match selection {
            Selection::Region { rect } => Some(rect),
            Selection::FrozenRegion { rect } => Some(rect),
            _ => None,
        }),
{
    match selection {
        Selection::Region { rect } => Some(rect),
        Selection::FrozenRegion { rect } => Some(rect),
        _ => None,
    }
}

#[derive(Clone, Copy, PartialEq, Eq, Structural, Debug)]
pub enum RecordingFormat {
    Gif,
    Mp4,
}

/// How a recording is made.
#[derive(Clone, Copy, PartialEq, Eq, Structural, Debug)]
pub struct RecordingSettings {
    pub fps: u32,
    pub max_duration_secs: u64,
    pub quality: u8,
    pub video_crf: u32,
    pub show_cursor: bool,
    pub record_audio: bool,
    pub format: RecordingFormat,
}

/// What the settings say of videos.
#[derive(Clone, Copy, PartialEq, Eq, Structural, Debug)]
pub struct VideoSettings {
    pub fps: u32,
    pub crf: u32,
    pub record_audio: bool,
}

/// How a recording is made. A GIF has a frame rate of its own.
pub fn recording_settings(mp4: bool, capture: CaptureConfig, quality: u8, video: VideoSettings) -> (r:
    RecordingSettings)
    ensures
        r == (RecordingSettings {
            fps: if mp4 {
                video.fps
            } else {
                capture.gif_fps
            },
            max_duration_secs: capture.gif_max_duration_secs as u64,
            quality,
            video_crf: video.crf,
            show_cursor: capture.show_cursor,
            record_audio: video.record_audio,
            format: if mp4 {
                RecordingFormat::Mp4
            } else {
                RecordingFormat::Gif
            },
        }),
{
    RecordingSettings {
        fps: if mp4 {
            video.fps
        } else {
            capture.gif_fps
        },
        max_duration_secs: capture.gif_max_duration_secs as u64,
        quality,
        video_crf: video.crf,
        show_cursor: capture.show_cursor,
        record_audio: video.record_audio,
        format: if mp4 {
            RecordingFormat::Mp4
        } else {
            RecordingFormat::Gif
        },
    }
}

// ---- saving ----------------------------------------------------------------------------------

/// Whether to wait once more for the last frames: five seconds at most.
pub fn keep_draining(drained: bool, waited_ms: u64) -> (r: bool)
    ensures
        r == (!drained && waited_ms < 5000),
{
    !drained && waited_ms < 5000
}

/// The name of a capture with the extension of a recording.
pub fn recording_name(name: &str, mp4: bool) -> (r: String)
    ensures
        r@ == paths::stem(name@) + "."@ + (if mp4 {
            "mp4"@
        } else {
            "gif"@
        }),
{
    let mut s = paths::file_stem(name);
    s.append(".");
    s.append(
        if mp4 {
            "mp4"
        } else {
            "gif"
        },
    );
    s
}

/// The title under which the user is told of a recording that was saved.
pub fn saved_title(mp4: bool) -> (r: &'static str)
    ensures
        r@ == (if mp4 {
            "Video saved"@
        } else {
            "GIF saved"@
        }),
{
    if mp4 {
        "Video saved"
    } else {
        "GIF saved"
    }
}

/// The kind of error where a recording could not be saved.
pub fn save_error_kind(mp4: bool) -> (r: &'static str)
    ensures
        r@ == (if mp4 {
            "mp4-save"@
        } else {
            "gif-save"@
        }),
{
    if mp4 {
        "mp4-save"
    } else {
        "gif-save"
    }
}

/// Why a recording stopped.
#[derive(Clone, Copy, PartialEq, Eq, Structural, Debug)]
pub enum StopReason {
    User,
    MaxDuration,
    FrameCap,
    DiskFull,
    EncoderFailed,
}

/// What the user is told of a stop that they did not ask for.
pub open spec fn stop_note(reason: Option<StopReason>, max_secs: u32) -> Option<Seq<char>> {
    match reason {
        Some(StopReason::MaxDuration) => Some(
            "hit the "@ + text::dec(max_secs as nat)
                + "s max duration — raise it under settings → capture"@,
        ),
        Some(StopReason::FrameCap) => Some(
            "hit the frame-count safety limit — recording saved"@,
        ),
        Some(StopReason::DiskFull) => Some(
            "stopped early: the disk is nearly full — recording saved"@,
        ),
        Some(StopReason::EncoderFailed) => Some(
            "stopped early: couldn't write frames to disk — saved what was captured"@,
        ),
        Some(StopReason::User) => None,
        None => None,
    }
}

/// What the user is told of a stop that they did not ask for.
pub fn early_stop_note(reason: Option<StopReason>, max_secs: u32) -> (r: Option<String>)
    ensures
        text::opt_owned(r) == stop_note(reason, max_secs),
{
    match reason {
        Some(StopReason::MaxDuration) => {
            let mut s = String::from_str("hit the ");
            text::push_dec(&mut s, max_secs as u64);
            s.append("s max duration — raise it under settings → capture");
            Some(s)
        },
        Some(StopReason::FrameCap) => Some(
            String::from_str("hit the frame-count safety limit — recording saved"),
        ),
        Some(StopReason::DiskFull) => Some(
            String::from_str("stopped early: the disk is nearly full — recording saved"),
        ),
        Some(StopReason::EncoderFailed) => Some(
            String::from_str(
                "stopped early: couldn't write frames to disk — saved what was captured",
            ),
        ),
        Some(StopReason::User) => None,
        None => None,
    }
}

/// What the user is told of a recording that was saved.
#[derive(Debug)]
pub struct SavedRecording {
    pub play_sound: bool,
    /// The title of the notification, whose text is the path.
    pub title: Option<&'static str>,
    /// What went otherwise than the user asked for.
    pub notes: Vec<String>,
}

/// What went otherwise than the user asked for.
pub open spec fn notes_of(
    audio_dropped: bool,
    reason: Option<StopReason>,
    max_secs: u32,
) -> Seq<Seq<char>> {
    (if audio_dropped {
        seq!["saved without audio — the system-audio track couldn't be captured or muxed"@]
    } else {
        Seq::empty()
    }) + (match stop_note(reason, max_secs) {
        Some(note) => seq![note],
        None => Seq::empty(),
    })
}

/// What the user is told of a recording that was saved.
pub fn recording_saved(
    mp4: bool,
    audio_dropped: bool,
    reason: Option<StopReason>,
    max_secs: u32,
    play_sound: bool,
    show_notifications: bool,
) -> (r: SavedRecording)
    ensures
        r.play_sound == play_sound,
        text::opt(r.title) == (if !show_notifications {
            None
        } else if mp4 {
            Some("Video saved"@)
        } else {
            Some("GIF saved"@)
        }),
        text::texts(r.notes@) == notes_of(audio_dropped, reason, max_secs),
{
    let mut notes: Vec<String> = Vec::new();
    assert(text::texts(notes@) =~= Seq::<Seq<char>>::empty());
    if audio_dropped {
        push(
            &mut notes,
            "saved without audio — the system-audio track couldn't be captured or muxed",
        );
    }
    match early_stop_note(reason, max_secs) {
        Some(note) => push(&mut notes, note.as_str()),
        None => {},
    }
    assert(text::texts(notes@) =~= notes_of(audio_dropped, reason, max_secs));
    SavedRecording {
        play_sound,
        title: if show_notifications {
            Some(saved_title(mp4))
        } else {
            None
        },
        notes,
    }
}

/// What the tray shows while a task records.
pub fn recording_tooltip(task_name: &str) -> (r: String)
    ensures
        r@ == "capscr · recording '"@ + task_name@ + "'"@,
{
    let mut s = String::from_str("capscr · recording '");
    s.append(task_name);
    s.append("'");
    s
}

/// What is done with a recording that was saved.
#[derive(Clone, Copy, PartialEq, Eq, Structural, Debug)]
pub enum RecordingAction {
    /// The file goes on the clipboard, or its path where that fails.
    CopyFile,
    /// The file is shown in its directory.
    Reveal,
    Upload { target: Option<TaskUploadTarget> },
    Nothing,
}

/// What is done with a recording that was saved. It cannot be edited, and no
/// text is read in it.
pub fn apply_gif_post_action(task: &CaptureTask) -> (r: RecordingAction)
    ensures
        r == (match task.post_action {
            TaskPostAction::Clipboard => RecordingAction::CopyFile,
            TaskPostAction::SaveAndClipboard => RecordingAction::CopyFile,
            TaskPostAction::OpenEditor => RecordingAction::Reveal,
            TaskPostAction::Upload => RecordingAction::Upload { target: task.target_destination },
            _ => RecordingAction::Nothing,
        }),
{
    match task.post_action {
        TaskPostAction::Clipboard => RecordingAction::CopyFile,
        TaskPostAction::SaveAndClipboard => RecordingAction::CopyFile,
        TaskPostAction::OpenEditor => RecordingAction::Reveal,
        TaskPostAction::Upload => RecordingAction::Upload { target: task.target_destination },
        _ => RecordingAction::Nothing,
    }
}

/// As what kind of file, and under which name at the least, a recording is
/// uploaded.
pub fn recording_media_type(name: &str) -> (r: (&'static str, &'static str))
    ensures
        paths::extension(name@) == "mp4"@ ==> r.0@ == "video/mp4"@ && r.1@ == "capture.mp4"@,
        paths::extension(name@) != "mp4"@ ==> r.0@ == "image/gif"@ && r.1@ == "capture.gif"@,
{
    if text::same(paths::file_extension(name).as_str(), "mp4") {
        ("video/mp4", "capture.mp4")
    } else {
        ("image/gif", "capture.gif")
    }
}

// ---- trimming --------------------------------------------------------------------------------

/// Why a recording is not trimmed.
#[derive(Clone, Copy, PartialEq, Eq, Structural, Debug)]
pub enum TrimFault {
    Outside,
    Traversal,
    Network,
    NotFound,
    NotMp4,
}

impl TrimFault {
    pub fn message(&self) -> (r: &'static str)
        ensures
            r@ == (match *self {
                TrimFault::Outside => "Path is outside the allowed directories"@,
                TrimFault::Traversal => "path contains directory traversal"@,
                TrimFault::Network => "network paths not allowed"@,
                TrimFault::NotFound => "file not found"@,
                TrimFault::NotMp4 => "not an mp4 file"@,
            }),
    {
        match *self {
            TrimFault::Outside => "Path is outside the allowed directories",
            TrimFault::Traversal => "path contains directory traversal",
            TrimFault::Network => "network paths not allowed",
            TrimFault::NotFound => "file not found",
            TrimFault::NotMp4 => "not an mp4 file",
        }
    }
}

/// The path that a canonical path on Windows stands for, without its prefix.
pub open spec fn resolved(path: Seq<char>) -> Seq<char> {
    if text::starts_with(path, "\\\\?\\"@) {
        let rest = path.skip(4);
        if text::starts_with(rest, "UNC\\"@) {
            "\\\\"@ + rest.skip(4)
        } else {
            rest
        }
    } else {
        path
    }
}

/// The path that a canonical path on Windows stands for, without its prefix.
pub fn resolve_path(path: &str) -> (r: String)
    ensures
        r@ == resolved(path@),
{
    proof {
        reveal_strlit("\\\\?\\");
        reveal_strlit("UNC\\");
    }
    if !text::has_prefix(path, "\\\\?\\") {
        return path.to_owned();
    }
    let a = text::chars_of(path);
    let n: usize = a.len();
    let rest = text::part_of(&a, 4, n);
    assert(rest@ =~= path@.skip(4));
    if text::has_prefix(rest.as_str(), "UNC\\") {
        let b = text::chars_of(rest.as_str());
        let m: usize = b.len();
        let tail = text::part_of(&b, 4, m);
        assert(tail@ =~= rest@.skip(4));
        let mut s = String::from_str("\\\\");
        s.append(tail.as_str());
        s
    } else {
        rest
    }
}

/// Whether a recording may be trimmed. `name` is the last part of its path.
pub fn trim_mp4(path: &str, name: &str, path_allowed: bool, exists: bool, windows: bool) -> (r:
    Result<(), TrimFault>)
    ensures
        r == (if !path_allowed {
            Err::<(), TrimFault>(TrimFault::Outside)
        } else if text::contains(path@, ".."@) {
            Err(TrimFault::Traversal)
        } else if windows && text::starts_with(path@, "\\\\"@) {
            Err(TrimFault::Network)
        } else if !exists {
            Err(TrimFault::NotFound)
        } else if text::ascii_lower_all(paths::extension(name@)) != text::ascii_lower_all("mp4"@) {
            Err(TrimFault::NotMp4)
        } else {
            Ok(())
        }),
{
    if !path_allowed {
        return Err(TrimFault::Outside);
    }
    if text::has_text(path, "..") {
        return Err(TrimFault::Traversal);
    }
    if windows && text::has_prefix(path, "\\\\") {
        return Err(TrimFault::Network);
    }
    if !exists {
        return Err(TrimFault::NotFound);
    }
    if !text::same_but_for_case(paths::file_extension(name).as_str(), "mp4") {
        return Err(TrimFault::NotMp4);
    }
    Ok(())
}

/// The name of what is cut out of a recording.
pub fn trimmed_name(name: &str) -> (r: String)
    ensures
        r@ == (if name@.len() == 0 || name@ == ".."@ {
            "clip"@
        } else {
            paths::stem(name@)
        }) + "_trim.mp4"@,
{
    let mut s = if name.is_empty() || text::same(name, "..") {
        String::from_str("clip")
    } else {
        paths::file_stem(name)
    };
    s.append("_trim.mp4");
    s
}

/// What the encoder is called with.
pub open spec fn trim_arguments(
    fast: bool,
    path: Seq<char>,
    start: Seq<char>,
    duration: Seq<char>,
    out: Seq<char>,
) -> Seq<Seq<char>> {
    if fast {
        seq!["-ss"@, start, "-i"@, path, "-t"@, duration, "-c"@, "copy"@, "-an"@, "-y"@, out]
    } else {
        seq![
            "-i"@,
            path,
            "-ss"@,
            start,
            "-t"@,
            duration,
            "-c:v"@,
            "libx264"@,
            "-pix_fmt"@,
            "yuv420p"@,
            "-crf"@,
            "23"@,
            "-an"@,
            "-y"@,
            out,
        ]
    }
}

fn push(v: &mut Vec<String>, s: &str)
    ensures
        text::texts(final(v)@) == text::texts(old(v)@).push(s@),
{
    v.push(s.to_owned());
    assert(text::texts(v@) =~= text::texts(old(v)@).push(s@));
}

/// What the encoder is called with to cut out a part: the frames as they are,
/// or encoded anew, which cuts at the frame.
pub fn trim_args(fast: bool, path: &str, start: &str, duration: &str, out: &str) -> (r: Vec<String>)
    ensures
        text::texts(r@) == trim_arguments(fast, path@, start@, duration@, out@),
{
    let mut v: Vec<String> = Vec::new();
    assert(text::texts(v@) =~= Seq::<Seq<char>>::empty());
    if fast {
        push(&mut v, "-ss");
        push(&mut v, start);
        push(&mut v, "-i");
        push(&mut v, path);
        push(&mut v, "-t");
        push(&mut v, duration);
        push(&mut v, "-c");
        push(&mut v, "copy");
    } else {
        push(&mut v, "-i");
        push(&mut v, path);
        push(&mut v, "-ss");
        push(&mut v, start);
        push(&mut v, "-t");
        push(&mut v, duration);
        push(&mut v, "-c:v");
        push(&mut v, "libx264");
        push(&mut v, "-pix_fmt");
        push(&mut v, "yuv420p");
        push(&mut v, "-crf");
        push(&mut v, "23");
    }
    push(&mut v, "-an");
    push(&mut v, "-y");
    push(&mut v, out);
    assert(text::texts(v@) =~= trim_arguments(fast, path@, start@, duration@, out@));
    v
}

/// What is said where the encoder failed: the last line that it wrote.
pub fn encoder_failure(stderr: &str) -> (r: String)
    ensures
        ({
            let t = text::trim(stderr@);
            r@ == "ffmpeg failed: "@ + (if t.len() == 0 {
                "ffmpeg error"@
            } else {
                text::split(t, '\n').last()
            })
        }),
{
    let mut s = String::from_str("ffmpeg failed: ");
    let t = text::trimmed(stderr);
    if t.as_str().is_empty() {
        s.append("ffmpeg error");
    } else {
        let lines = text::pieces(t.as_str(), '\n');
        let n: usize = lines.len();
        assert(text::split(t@, '\n').len() > 0);
        assert(text::texts(lines@)[n - 1] == lines@[n - 1]@);
        s.append(lines[n - 1].as_str());
    }
    s
}

// ---- laws --------------------------------------------------------------------------------------

/// A task that records does so in its own format, and every other one captures
/// in its own mode, with its own action, target and delay.
pub proof fn lemma_tasks_run_as_set(task: &CaptureTask, r: TaskRun)
    requires
        call_ensures(run_task, (task,), r),
    ensures
        r is Record <==> task.capture_mode == TaskCaptureMode::RegionGif || task.capture_mode
            == TaskCaptureMode::RegionMp4,
        r matches TaskRun::Record { mp4 } ==> (mp4 <==> task.capture_mode
            == TaskCaptureMode::RegionMp4),
        r matches TaskRun::Capture { mode, post, target, delay_ms } ==> {
            &&& target == task.target_destination
            &&& delay_ms == task.delay_ms
            &&& mode == CaptureModeArg::Region <==> task.capture_mode == TaskCaptureMode::Region
            &&& mode == CaptureModeArg::RegionLast <==> task.capture_mode
                == TaskCaptureMode::RegionLast
            &&& mode == CaptureModeArg::Window <==> task.capture_mode == TaskCaptureMode::Window
            &&& mode == CaptureModeArg::Fullscreen <==> task.capture_mode
                == TaskCaptureMode::Fullscreen
            &&& mode == CaptureModeArg::ActiveMonitor <==> task.capture_mode
                == TaskCaptureMode::ActiveMonitor
            &&& post == PostActionArg::Clipboard <==> task.post_action == TaskPostAction::Clipboard
            &&& post == PostActionArg::SaveFile <==> task.post_action == TaskPostAction::SaveFile
            &&& post == PostActionArg::Upload <==> task.post_action == TaskPostAction::Upload
            &&& post == PostActionArg::SaveAndClipboard <==> task.post_action
                == TaskPostAction::SaveAndClipboard
            &&& post == PostActionArg::OpenEditor <==> task.post_action
                == TaskPostAction::OpenEditor
            &&& post == PostActionArg::Prompt <==> task.post_action == TaskPostAction::Prompt
            &&& post == PostActionArg::DoNothing <==> task.post_action == TaskPostAction::DoNothing
            &&& post == PostActionArg::CopyText <==> task.post_action == TaskPostAction::CopyText
        },
{
}

/// Two tasks that are set alike run alike, and two that are set to different
/// actions never do the same with a capture.
pub proof fn lemma_tasks_with_different_actions_differ(
    a: &CaptureTask,
    b: &CaptureTask,
    r: TaskRun,
    s: TaskRun,
)
    requires
        call_ensures(run_task, (a,), r),
        call_ensures(run_task, (b,), s),
        r is Capture,
        s is Capture,
    ensures
        r->post == s->post <==> a.post_action == b.post_action,
        r->mode == s->mode <==> a.capture_mode == b.capture_mode,
{
}

/// A recording is made at the frame rate of its format, in its format, and with
/// the pointer and the length that the settings say.
pub proof fn lemma_recordings_are_made_as_set(
    mp4: bool,
    capture: CaptureConfig,
    quality: u8,
    video: VideoSettings,
    r: RecordingSettings,
)
    requires
        call_ensures(recording_settings, (mp4, capture, quality, video), r),
    ensures
        mp4 ==> r.format == RecordingFormat::Mp4 && r.fps == video.fps,
        !mp4 ==> r.format == RecordingFormat::Gif && r.fps == capture.gif_fps,
        r.max_duration_secs == capture.gif_max_duration_secs,
        r.show_cursor == capture.show_cursor,
        r.quality == quality,
        r.video_crf == video.crf,
        r.record_audio == video.record_audio,
{
}

/// A recording is saved under the capture's name with the extension of its own
/// format, and uploaded as the kind that the extension says.
pub proof fn lemma_recordings_are_named_after_their_format(name: &str, mp4: bool, r: String)
    requires
        call_ensures(recording_name, (name, mp4), r),
    ensures
        mp4 ==> r@ == paths::stem(name@) + ".mp4"@,
        !mp4 ==> r@ == paths::stem(name@) + ".gif"@,
{
    reveal_strlit(".");
    reveal_strlit("mp4");
    reveal_strlit("gif");
    reveal_strlit(".mp4");
    reveal_strlit(".gif");
    assert(r@ =~= paths::stem(name@) + if mp4 {
        ".mp4"@
    } else {
        ".gif"@
    });
}

/// A recording goes on the clipboard, is uploaded or is shown as its task says,
/// and goes to the task's own target.
pub proof fn lemma_recordings_end_as_asked(task: &CaptureTask, r: RecordingAction)
    requires
        call_ensures(apply_gif_post_action, (task,), r),
    ensures
        r == RecordingAction::CopyFile <==> task.post_action == TaskPostAction::Clipboard
            || task.post_action == TaskPostAction::SaveAndClipboard,
        r is Upload <==> task.post_action == TaskPostAction::Upload,
        r matches RecordingAction::Upload { target } ==> target == task.target_destination,
        r == RecordingAction::Reveal <==> task.post_action == TaskPostAction::OpenEditor,
{
}

/// Only a region is recorded, and it is the one that was selected.
pub proof fn lemma_selected_region_is_recorded(selection: Selection, r: Option<Rectangle>)
    requires
        call_ensures(region_to_record, (selection,), r),
    ensures
        r is Some <==> selection is Region || selection is FrozenRegion,
        selection matches Selection::Region { rect } ==> r == Some(rect),
        selection matches Selection::FrozenRegion { rect } ==> r == Some(rect),
{
}

/// A recording starts only where nothing is selected, recorded, saved or
/// captured, and a video only where there is an encoder; a selection that is
/// under way is called off first.
pub proof fn lemma_recordings_start_in_peace(
    rec: &Recorder,
    task: &str,
    mp4: bool,
    selecting: bool,
    encoder: bool,
    busy: bool,
    r: RecordStep,
)
    requires
        call_ensures(Recorder::run_gif_task, (rec, task, mp4, selecting, encoder, busy), r),
    ensures
        r == RecordStep::Select <==> !selecting && rec.spec_state() == RecordingState::Idle && !busy
            && (mp4 ==> encoder),
        r == RecordStep::CancelSelection <==> selecting,
        r == RecordStep::Stop <==> !selecting && rec.spec_state() == RecordingState::Recording
            && rec.spec_task() == Some(task@),
        r == RecordStep::Refuse <==> !selecting && rec.spec_state() == RecordingState::Recording
            && rec.spec_task() != Some(task@),
        r == RecordStep::MissingEncoder <==> !selecting && rec.spec_state() == RecordingState::Idle
            && mp4 && !encoder,
{
}

/// A recording that the user stopped is over, and so is one that the recorder
/// stopped; one that goes on is not.
pub proof fn lemma_recordings_end(rec: &Recorder, still_recording: bool, r: bool)
    requires
        call_ensures(Recorder::is_over, (rec, still_recording), r),
    ensures
        rec.spec_task() is None ==> r,
        !still_recording ==> r,
        rec.spec_task() is Some && still_recording ==> !r,
{
}

/// The encoder is told where to begin, how long to go on, what to read and what
/// to write; it keeps the frames exactly where the cut may be rough, and never
/// keeps the sound.
pub proof fn lemma_encoder_is_told_what_to_cut(
    fast: bool,
    path: &str,
    start: &str,
    duration: &str,
    out: &str,
    r: Vec<String>,
)
    requires
        call_ensures(trim_args, (fast, path, start, duration, out), r),
    ensures
        ({
            let t = text::texts(r@);
            let given = |flag: Seq<char>, value: Seq<char>|
                exists|i: int|
                    0 <= i < t.len() - 1 && #[trigger] t[i] == flag && t[i + 1] == value;
            &&& given("-i"@, path@)
            &&& given("-ss"@, start@)
            &&& given("-t"@, duration@)
            &&& t.last() == out@
            &&& t.contains("-an"@)
            &&& t.contains("-y"@)
            &&& fast ==> given("-c"@, "copy"@)
            &&& !fast ==> given("-c:v"@, "libx264"@)
        }),
{
    let t = text::texts(r@);
    if fast {
        assert(t[0] == "-ss"@ && t[1] == start@);
        assert(t[2] == "-i"@ && t[3] == path@);
        assert(t[4] == "-t"@ && t[5] == duration@);
        assert(t[6] == "-c"@ && t[7] == "copy"@);
        assert(t[8] == "-an"@ && t[9] == "-y"@);
    } else {
        assert(t[0] == "-i"@ && t[1] == path@);
        assert(t[2] == "-ss"@ && t[3] == start@);
        assert(t[4] == "-t"@ && t[5] == duration@);
        assert(t[6] == "-c:v"@ && t[7] == "libx264"@);
        assert(t[12] == "-an"@ && t[13] == "-y"@);
    }
}

/// Only a video that is there, among the captures and reached without a detour
/// is trimmed.
pub proof fn lemma_only_own_videos_are_trimmed(
    path: &str,
    name: &str,
    path_allowed: bool,
    there: bool,
    windows: bool,
)
    requires
        call_ensures(trim_mp4, (path, name, path_allowed, there, windows), Ok(())),
    ensures
        path_allowed,
        there,
        !text::contains(path@, ".."@),
        windows ==> !text::starts_with(path@, "\\\\"@),
        text::ascii_lower_all(paths::extension(name@)) == text::ascii_lower_all("mp4"@),
{
}

/// What is said to be wrong with a recording that is not trimmed is wrong with it.
pub proof fn lemma_trim_faults_are_true(
    path: &str,
    name: &str,
    allowed: bool,
    exists: bool,
    windows: bool,
    f: TrimFault,
)
    requires
        call_ensures(trim_mp4, (path, name, allowed, exists, windows), Err(f)),
    ensures
        f == TrimFault::Outside <==> !allowed,
        f == TrimFault::NotFound ==> !exists,
        f == TrimFault::Network ==> windows,
        f == TrimFault::Traversal ==> text::contains(path@, ".."@),
        f == TrimFault::NotMp4 ==> exists,
{
}

/// A new recorder records nothing and belongs to no task.
pub proof fn lemma_new_recorder_is_idle(rec: Recorder, state: RecordingState)
    requires
        call_ensures(Recorder::new, (), rec),
        call_ensures(Recorder::state, (&rec,), state),
    ensures
        state == RecordingState::Idle,
        rec.spec_task() is None,
{
}

} // verus!
