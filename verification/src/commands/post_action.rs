//! What is done with a capture once there is one, as a machine: the program
//! performs a step, and hands back what came of it. A file is written in the
//! background, and what follows that is told apart.

use vstd::prelude::*;

use crate::commands::after;
use crate::commands::after::announce;
use crate::commands::after::save_failed;
use crate::commands::after::ErrorEventPayload;
use crate::commands::after::Notice;
use crate::commands::after::Sound;
use crate::config::PostCaptureAction;

verus! {

/// Where a capture is written.
#[derive(Clone, Copy, PartialEq, Eq, Structural, Debug)]
pub enum FileTarget {
    Nowhere,
    /// The directory of the settings.
    Output,
    /// The history.
    History,
}

/// How far the action has come.
#[derive(Clone, Copy, PartialEq, Eq, Structural, Debug)]
pub enum PostPhase {
    Idle,
    MakingHistory,
    WritingHistory,
    Copying,
    Writing,
    Uploading,
    Telling,
    Over,
}

/// What came of a step.
#[derive(Clone, Copy, PartialEq, Eq, Structural, Debug)]
pub enum PostEvent {
    /// There is a capture. `has_history` is whether there is a directory for
    /// the history.
    Begin { has_history: bool },
    /// Whether the directory of the history is there now.
    HistoryMade { ok: bool },
    /// A name was claimed, and the file is being written.
    WriteStarted,
    Copied { ok: bool },
    Uploaded { ok: bool },
    Told,
}

/// What to do next.
#[derive(Clone, Copy, PartialEq, Eq, Structural, Debug)]
pub enum PostStep {
    /// Nothing: the event does not belong here.
    Ignore,
    /// Make the directory of the history.
    MakeHistory,
    /// Claim a name and write the file in the background.
    Write { target: FileTarget },
    /// Put the image on the clipboard.
    Copy,
    Upload,
    /// Play the sound, if any, and tell the user, if they want to be told.
    Tell { sound: Option<Sound>, notice: bool },
    /// All is done, and the file is the capture's.
    Finish { file: FileTarget },
    /// The action failed.
    Fail,
}

/// An action on a capture.
#[derive(Clone, Copy, PartialEq, Eq, Structural, Debug)]
pub struct PostRun {
    pub action: PostCaptureAction,
    /// Captures that go to no file of their own are kept in the history.
    pub keep_history: bool,
    pub play_sound: bool,
    pub show_notifications: bool,
    pub phase: PostPhase,
    pub file: FileTarget,
    /// Whether the image got onto the clipboard.
    pub copied: bool,
}

/// The action writes a file of its own.
pub open spec fn saves(action: PostCaptureAction) -> bool {
    action == PostCaptureAction::SaveToFile || action == PostCaptureAction::SaveAndCopy || action
        == PostCaptureAction::PromptUser
}

/// The sound of an action.
pub open spec fn sound_of(action: PostCaptureAction) -> Sound {
    if action == PostCaptureAction::Upload {
        Sound::Upload
    } else {
        Sound::Screenshot
    }
}

impl PostRun {
    pub open spec fn to(self, phase: PostPhase) -> PostRun {
        PostRun { phase, ..self }
    }

    /// The file goes to the directory of the settings.
    pub open spec fn writing(self) -> (PostRun, PostStep) {
        (
            PostRun { phase: PostPhase::Writing, file: FileTarget::Output, ..self },
            PostStep::Write { target: FileTarget::Output },
        )
    }

    /// The history has the capture, or does not take it.
    pub open spec fn acting(self) -> (PostRun, PostStep) {
        match self.action {
            PostCaptureAction::CopyToClipboard => (self.to(PostPhase::Copying), PostStep::Copy),
            PostCaptureAction::Upload => (self.to(PostPhase::Uploading), PostStep::Upload),
            _ => self.telling(),
        }
    }

    /// The action is done, but for the user.
    pub open spec fn telling(self) -> (PostRun, PostStep) {
        (
            self.to(PostPhase::Telling),
            PostStep::Tell {
                sound: if self.play_sound {
                    Some(sound_of(self.action))
                } else {
                    None
                },
                notice: self.show_notifications,
            },
        )
    }

    /// What an event leads to.
    pub open spec fn step(self, event: PostEvent) -> (PostRun, PostStep) {
        match (self.phase, event) {
            (PostPhase::Idle, PostEvent::Begin { has_history }) => match self.action {
                PostCaptureAction::SaveToFile => self.writing(),
                PostCaptureAction::SaveAndCopy => (self.to(PostPhase::Copying), PostStep::Copy),
                PostCaptureAction::PromptUser => (self.to(PostPhase::Copying), PostStep::Copy),
                _ => if self.keep_history && has_history {
                    (self.to(PostPhase::MakingHistory), PostStep::MakeHistory)
                } else {
                    self.acting()
                },
            },
            (PostPhase::MakingHistory, PostEvent::HistoryMade { ok }) => if ok {
                (
                    PostRun {
                        phase: PostPhase::WritingHistory,
                        file: FileTarget::History,
                        ..self
                    },
                    PostStep::Write { target: FileTarget::History },
                )
            } else {
                self.acting()
            },
            (PostPhase::WritingHistory, PostEvent::WriteStarted) => self.acting(),
            (PostPhase::Copying, PostEvent::Copied { ok }) => {
                let p = PostRun { copied: ok, ..self };
                if saves(self.action) {
                    p.writing()
                } else {
                    p.telling()
                }
            },
            (PostPhase::Writing, PostEvent::WriteStarted) => (
                self.to(PostPhase::Over),
                PostStep::Finish { file: self.file },
            ),
            (PostPhase::Uploading, PostEvent::Uploaded { ok }) => if ok {
                self.telling()
            } else {
                (self.to(PostPhase::Over), PostStep::Fail)
            },
            (PostPhase::Telling, PostEvent::Told) => (
                self.to(PostPhase::Over),
                PostStep::Finish { file: self.file },
            ),
            _ => (self, PostStep::Ignore),
        }
    }

    // ---- the machine -------------------------------------------------------------------------

    /// An action that has not begun.
    pub fn new(
        action: PostCaptureAction,
        keep_history: bool,
        play_sound: bool,
        show_notifications: bool,
    ) -> (r: Self)
        ensures
            r == (PostRun {
                action,
                keep_history,
                play_sound,
                show_notifications,
                phase: PostPhase::Idle,
                file: FileTarget::Nowhere,
                copied: false,
            }),
    {
        PostRun {
            action,
            keep_history,
            play_sound,
            show_notifications,
            phase: PostPhase::Idle,
            file: FileTarget::Nowhere,
            copied: false,
        }
    }

    fn go_writing(&mut self) -> (s: PostStep)
        ensures
            (*final(self), s) == old(self).writing(),
    {
        self.phase = PostPhase::Writing;
        self.file = FileTarget::Output;
        PostStep::Write { target: FileTarget::Output }
    }

    fn go_telling(&mut self) -> (s: PostStep)
        ensures
            (*final(self), s) == old(self).telling(),
    {
        self.phase = PostPhase::Telling;
        let sound = if self.play_sound {
            match self.action {
                PostCaptureAction::Upload => Some(Sound::Upload),
                _ => Some(Sound::Screenshot),
            }
        } else {
            None
        };
        PostStep::Tell { sound, notice: self.show_notifications }
    }

    fn go_acting(&mut self) -> (s: PostStep)
        ensures
            (*final(self), s) == old(self).acting(),
    {
        match self.action {
            PostCaptureAction::CopyToClipboard => {
                self.phase = PostPhase::Copying;
                PostStep::Copy
            },
            PostCaptureAction::Upload => {
                self.phase = PostPhase::Uploading;
                PostStep::Upload
            },
            _ => self.go_telling(),
        }
    }

    fn finish(&mut self) -> (s: PostStep)
        ensures
            *final(self) == old(self).to(PostPhase::Over),
            s == (PostStep::Finish { file: old(self).file }),
    {
        self.phase = PostPhase::Over;
        PostStep::Finish { file: self.file }
    }

    /// Takes in what came of the last step, and says what to do next.
    pub fn run_post_action(&mut self, event: PostEvent) -> (s: PostStep)
        ensures
            (*final(self), s) == old(self).step(event),
    {
        match (self.phase, event) {
            (PostPhase::Idle, PostEvent::Begin { has_history }) => match self.action {
                PostCaptureAction::SaveToFile => self.go_writing(),
                PostCaptureAction::SaveAndCopy | PostCaptureAction::PromptUser => {
                    self.phase = PostPhase::Copying;
                    PostStep::Copy
                },
                _ => if self.keep_history && has_history {
                    self.phase = PostPhase::MakingHistory;
                    PostStep::MakeHistory
                } else {
                    self.go_acting()
                },
            },
            (PostPhase::MakingHistory, PostEvent::HistoryMade { ok }) => if ok {
                self.phase = PostPhase::WritingHistory;
                self.file = FileTarget::History;
                PostStep::Write { target: FileTarget::History }
            } else {
                self.go_acting()
            },
            (PostPhase::WritingHistory, PostEvent::WriteStarted) => self.go_acting(),
            (PostPhase::Copying, PostEvent::Copied { ok }) => {
                self.copied = ok;
                match self.action {
                    PostCaptureAction::SaveToFile
                    | PostCaptureAction::SaveAndCopy
                    | PostCaptureAction::PromptUser => self.go_writing(),
                    _ => self.go_telling(),
                }
            },
            (PostPhase::Writing, PostEvent::WriteStarted) => self.finish(),
            (PostPhase::Uploading, PostEvent::Uploaded { ok }) => if ok {
                self.go_telling()
            } else {
                self.phase = PostPhase::Over;
                PostStep::Fail
            },
            (PostPhase::Telling, PostEvent::Told) => self.finish(),
            _ => PostStep::Ignore,
        }
    }
}

// ---- once a file is written ------------------------------------------------------------------

/// What follows the writing of a file.
#[derive(Debug)]
pub struct WriteEnd {
    /// The HDR file goes beside it, where there is to be one.
    pub sidecar: bool,
    /// It counts as the file that was saved last.
    pub remember: bool,
    /// The windows of the program are told of it.
    pub announce: bool,
    /// What was claimed for it is removed.
    pub remove: bool,
    pub sound: Option<Sound>,
    pub notice: Option<Notice>,
    pub error: Option<ErrorEventPayload>,
}

/// The end says what follows the writing of the file at the path.
pub open spec fn ends(
    r: WriteEnd,
    run: PostRun,
    target: FileTarget,
    path: Seq<char>,
    ok: bool,
) -> bool {
    let own = target == FileTarget::Output;
    &&& r.sidecar == ok
    &&& r.announce == ok
    &&& r.remember == (ok && own)
    &&& r.remove == (!ok && own)
    &&& r.sound == (if ok && own && run.play_sound {
        Some(Sound::Screenshot)
    } else {
        None
    })
    &&& (r.error is Some) == (!ok && own)
    &&& r.error matches Some(e) ==> e.kind@ == "save"@ && e.msg@
        == "couldn't write the capture to disk"@
    &&& (r.notice is Some) == (own && run.show_notifications)
    &&& r.notice matches Some(n) ==> if ok {
        after::says(
            n,
            after::announced(run.action, run.copied, path).0,
            after::announced(run.action, run.copied, path).1,
        )
    } else {
        after::says(n, "Capture failed"@, "couldn't write the capture to disk"@)
    }
}

/// What follows the writing of a file. The user is told of a file of its own
/// alone, and that it was saved only where it was; of the history they hear
/// nothing.
pub fn after_write(run: PostRun, target: FileTarget, path: &str, ok: bool) -> (r: WriteEnd)
    ensures
        ends(r, run, target, path@, ok),
{
    let own = target == FileTarget::Output;
    let (error, notice) = if !own {
        (None, None)
    } else if ok {
        let notice = if run.show_notifications {
            Some(announce(run.action, run.copied, path))
        } else {
            None
        };
        (None, notice)
    } else {
        let (error, notice) = save_failed(run.show_notifications);
        (Some(error), notice)
    };
    let sound = if ok && own && run.play_sound {
        Some(Sound::Screenshot)
    } else {
        None
    };
    WriteEnd {
        sidecar: ok,
        remember: ok && own,
        announce: ok,
        remove: !ok && own,
        sound,
        notice,
        error,
    }
}

// ---- laws --------------------------------------------------------------------------------------

/// What holds of every run: each phase is one that the action has, and the file
/// is where the action and the settings say.
pub open spec fn fitting(p: PostRun) -> bool {
    &&& p.phase == PostPhase::Writing ==> saves(p.action) && p.file == FileTarget::Output
    &&& p.phase == PostPhase::Uploading ==> p.action == PostCaptureAction::Upload
    &&& p.phase == PostPhase::Copying ==> p.action == PostCaptureAction::CopyToClipboard
        || p.action == PostCaptureAction::SaveAndCopy || p.action == PostCaptureAction::PromptUser
    &&& p.phase == PostPhase::MakingHistory || p.phase == PostPhase::WritingHistory || p.file
        == FileTarget::History ==> p.keep_history && !saves(p.action)
    &&& p.phase == PostPhase::Telling ==> !saves(p.action)
    &&& p.file == FileTarget::Output ==> saves(p.action) && (p.phase == PostPhase::Writing
        || p.phase == PostPhase::Over)
    &&& p.phase == PostPhase::Over && saves(p.action) ==> p.file == FileTarget::Output
}

/// A run begins so.
pub proof fn lemma_new_run_is_fitting(p: PostRun)
    requires
        p.phase == PostPhase::Idle,
        p.file == FileTarget::Nowhere,
    ensures
        fitting(p),
{
}

/// Every event leaves it so.
pub proof fn lemma_step_keeps_fitting(p: PostRun, event: PostEvent)
    requires
        fitting(p),
    ensures
        fitting(p.step(event).0),
{
}

/// Nothing is uploaded but on request.
pub proof fn lemma_only_uploads_upload(p: PostRun, event: PostEvent)
    requires
        p.step(event).1 == PostStep::Upload,
    ensures
        p.action == PostCaptureAction::Upload,
{
}

/// Where the history is switched off, nothing is written to it.
pub proof fn lemma_history_is_opt_in(p: PostRun, event: PostEvent)
    requires
        fitting(p),
        !p.keep_history,
    ensures
        p.step(event).1 != PostStep::MakeHistory,
        p.step(event).1 != (PostStep::Write { target: FileTarget::History }),
        p.step(event).1 != (PostStep::Finish { file: FileTarget::History }),
{
}

/// Only an upload that did not go through makes an action fail: a clipboard that
/// is occupied, or a history that cannot be made, does not.
pub proof fn lemma_only_failed_uploads_fail(p: PostRun, event: PostEvent)
    requires
        p.step(event).1 == PostStep::Fail,
    ensures
        p.phase == PostPhase::Uploading,
        event == (PostEvent::Uploaded { ok: false }),
{
}

/// An action that saves ends with a file in the directory of the settings, and no
/// other does.
pub proof fn lemma_saves_end_with_a_file(p: PostRun, event: PostEvent, file: FileTarget)
    requires
        fitting(p),
        p.step(event).1 == (PostStep::Finish { file }),
    ensures
        (file == FileTarget::Output) == saves(p.action),
{
}

/// How many steps a run has left at most.
pub open spec fn steps_left(phase: PostPhase) -> int {
    match phase {
        PostPhase::Idle => 6,
        PostPhase::MakingHistory => 5,
        PostPhase::WritingHistory => 4,
        PostPhase::Copying => 3,
        PostPhase::Uploading => 3,
        PostPhase::Writing => 1,
        PostPhase::Telling => 1,
        PostPhase::Over => 0,
    }
}

/// Every step brings a run nearer to its end.
pub proof fn lemma_run_ends(p: PostRun, event: PostEvent)
    requires
        p.step(event).1 != PostStep::Ignore,
    ensures
        0 <= steps_left(p.step(event).0.phase) < steps_left(p.phase),
{
}

/// A file that could not be written is never said to be saved, and nothing of it
/// is left behind.
pub proof fn lemma_failed_write_is_not_announced(
    r: WriteEnd,
    run: PostRun,
    path: Seq<char>,
)
    requires
        ends(r, run, FileTarget::Output, path, false),
    ensures
        !r.announce && !r.remember && r.sound is None,
        r.remove,
        r.error is Some,
        r.notice matches Some(n) ==> n.title@ == "Capture failed"@,
{
}

/// The action puts the image on the clipboard.
pub open spec fn copies(action: PostCaptureAction) -> bool {
    action == PostCaptureAction::CopyToClipboard || action == PostCaptureAction::SaveAndCopy
        || action == PostCaptureAction::PromptUser
}

/// The action uploads the image.
pub open spec fn uploads(action: PostCaptureAction) -> bool {
    action == PostCaptureAction::Upload
}

/// A file of its own is written, the clipboard used and an upload made only by
/// an action that says so.
pub proof fn lemma_steps_are_those_of_the_action(p: PostRun, event: PostEvent)
    requires
        fitting(p),
    ensures
        p.step(event).1 == (PostStep::Write { target: FileTarget::Output }) ==> saves(p.action),
        p.step(event).1 == PostStep::Copy ==> copies(p.action),
        p.step(event).1 == PostStep::Upload ==> uploads(p.action),
{
}

/// What an action says it does, it does. Where the history is switched off: an
/// action that copies begins with that, one that uploads with that, and one that
/// saves writes its file at once or as soon as it has copied, whether or not the
/// clipboard was free. An action that does none of these only tells the user.
pub proof fn lemma_actions_do_what_they_say(p: PostRun, has_history: bool, ok: bool)
    requires
        p.phase == PostPhase::Idle,
        !p.keep_history,
    ensures
        ({
            let (q, first) = p.step(PostEvent::Begin { has_history });
            let (r, second) = q.step(PostEvent::Copied { ok });
            &&& copies(p.action) <==> first == PostStep::Copy
            &&& uploads(p.action) <==> first == PostStep::Upload
            &&& saves(p.action) <==> first == (PostStep::Write { target: FileTarget::Output })
                || second == (PostStep::Write { target: FileTarget::Output })
            &&& !copies(p.action) && !uploads(p.action) && !saves(p.action) ==> first is Tell
            &&& copies(p.action) && !saves(p.action) ==> second is Tell && r.copied == ok
        }),
{
}

/// A capture that goes to no file of its own is first written to the history
/// where that is kept, and then its action goes on as it does without.
pub proof fn lemma_history_is_kept_first(p: PostRun)
    requires
        p.phase == PostPhase::Idle,
        p.keep_history,
    ensures
        ({
            let (q, first) = p.step(PostEvent::Begin { has_history: true });
            let (r, second) = q.step(PostEvent::HistoryMade { ok: true });
            let (_, third) = r.step(PostEvent::WriteStarted);
            let (_, without) = q.step(PostEvent::HistoryMade { ok: false });
            &&& first == PostStep::MakeHistory <==> !saves(p.action)
            &&& !saves(p.action) ==> second == (PostStep::Write { target: FileTarget::History })
                && r.file == FileTarget::History && third == without
            &&& !saves(p.action) ==> (copies(p.action) <==> third == PostStep::Copy)
            &&& !saves(p.action) ==> (uploads(p.action) <==> third == PostStep::Upload)
        }),
{
}

/// An upload has its own sound, everything else that of a capture, and there is
/// none where sounds are switched off; the user is told exactly where they want
/// to be.
pub proof fn lemma_telling_follows_the_settings(p: PostRun, event: PostEvent)
    requires
        p.step(event).1 is Tell,
    ensures
        p.step(event).1 matches PostStep::Tell { sound, notice } && notice == p.show_notifications
            && (sound is Some) == p.play_sound && (sound == Some(Sound::Upload) <==> p.play_sound
            && uploads(p.action)),
{
}

/// What follows a file that was written: one of its own counts as saved last, is
/// told of and has its sound; one in the history is announced to the windows
/// alone.
pub proof fn lemma_written_files_are_announced(
    run: PostRun,
    target: FileTarget,
    path: &str,
    r: WriteEnd,
)
    requires
        call_ensures(after_write, (run, target, path, true), r),
        target != FileTarget::Nowhere,
    ensures
        r.announce && r.sidecar && !r.remove && r.error is None,
        r.remember <==> target == FileTarget::Output,
        r.sound is Some <==> target == FileTarget::Output && run.play_sound,
        r.notice is Some <==> target == FileTarget::Output && run.show_notifications,
        run.action == PostCaptureAction::SaveToFile ==> (r.notice matches Some(n) ==> n.body@
            == path@ && n.title@ == "Capture saved"@),
{
}

/// A new action has done nothing yet, and begins with what it is for.
pub proof fn lemma_new_action_begins_at_the_beginning(
    action: PostCaptureAction,
    keep: bool,
    sound: bool,
    notify: bool,
    r: PostRun,
)
    requires
        call_ensures(PostRun::new, (action, keep, sound, notify), r),
    ensures
        r.action == action,
        r.keep_history == keep && r.play_sound == sound && r.show_notifications == notify,
        r.file == FileTarget::Nowhere && !r.copied,
        action == PostCaptureAction::SaveToFile ==> r.step(
            PostEvent::Begin { has_history: false },
        ).1 == (PostStep::Write { target: FileTarget::Output }),
        action == PostCaptureAction::SaveAndCopy || action == PostCaptureAction::CopyToClipboard
            || action == PostCaptureAction::PromptUser ==> r.step(
            PostEvent::Begin { has_history: false },
        ).1 == PostStep::Copy,
        action == PostCaptureAction::Upload ==> r.step(PostEvent::Begin { has_history: false }).1
            == PostStep::Upload,
        action == PostCaptureAction::DoNothing ==> r.step(
            PostEvent::Begin { has_history: false },
        ).1 is Tell,
{
}

} // verus!
