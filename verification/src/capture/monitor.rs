//! The capture of one display, as a machine: the program asks a source, and
//! hands back what came of it.

use vstd::prelude::*;

verus! {

/// Where the pixels of a display come from.
#[derive(Clone, Copy, PartialEq, Eq, Structural, Debug)]
pub enum MonitorSource {
    /// The system's capture service.
    Wgc,
    /// The raw samples of the display, tone-mapped.
    Hdr,
    /// A plain copy of the screen.
    Gdi,
    /// The display of the same number in the list of displays.
    Listed,
}

/// An HDR display is captured with the tone-mapping source, or with the
/// system's own where that is switched on; any other display plainly.
pub open spec fn starts_with(is_hdr: bool, wgc_enabled: bool) -> MonitorSource {
    if !is_hdr {
        MonitorSource::Gdi
    } else if wgc_enabled {
        MonitorSource::Wgc
    } else {
        MonitorSource::Hdr
    }
}

/// The source that is asked first.
pub fn first_source(is_hdr: bool, wgc_enabled: bool) -> (s: MonitorSource)
    ensures
        s == starts_with(is_hdr, wgc_enabled),
{
    if is_hdr {
        if wgc_enabled {
            MonitorSource::Wgc
        } else {
            MonitorSource::Hdr
        }
    } else {
        MonitorSource::Gdi
    }
}

/// The source that is asked after `s` failed: the plain copy, then the listed
/// display, and after that none.
pub open spec fn follows(s: MonitorSource) -> Option<MonitorSource> {
    match s {
        MonitorSource::Wgc => Some(MonitorSource::Gdi),
        MonitorSource::Hdr => Some(MonitorSource::Gdi),
        MonitorSource::Gdi => Some(MonitorSource::Listed),
        MonitorSource::Listed => None,
    }
}

/// The source that is asked after `s` failed.
pub fn fallback_source(s: MonitorSource) -> (r: Option<MonitorSource>)
    ensures
        r == follows(s),
{
    match s {
        MonitorSource::Wgc => Some(MonitorSource::Gdi),
        MonitorSource::Hdr => Some(MonitorSource::Gdi),
        MonitorSource::Gdi => Some(MonitorSource::Listed),
        MonitorSource::Listed => None,
    }
}

/// How far the capture has come.
#[derive(Clone, Copy, PartialEq, Eq, Structural, Debug)]
pub enum ShotPhase {
    Asking { source: MonitorSource },
    /// The first frame was black.
    AskingAgain { source: MonitorSource },
    Over,
}

/// What a source answered.
#[derive(Clone, Copy, PartialEq, Eq, Structural, Debug)]
pub enum ShotEvent {
    /// A frame came, and was turned as the display is.
    Came { black: bool },
    Failed,
}

/// What to do next.
#[derive(Clone, Copy, PartialEq, Eq, Structural, Debug)]
pub enum ShotStep {
    /// Nothing: the capture is over.
    Ignore,
    Ask { source: MonitorSource },
    /// Take the first frame, or the second where there is one to take.
    Take { second: bool },
    /// No source gave a frame.
    Fail,
}

/// The capture of a display.
#[derive(Clone, Copy, PartialEq, Eq, Structural, Debug)]
pub struct MonitorShot {
    pub phase: ShotPhase,
}

impl MonitorShot {
    /// What an answer leads to.
    pub open spec fn step(self, event: ShotEvent) -> (MonitorShot, ShotStep) {
        match (self.phase, event) {
            (ShotPhase::Asking { source }, ShotEvent::Failed) => match follows(source) {
                Some(next) => (
                    MonitorShot { phase: ShotPhase::Asking { source: next } },
                    ShotStep::Ask { source: next },
                ),
                None => (MonitorShot { phase: ShotPhase::Over }, ShotStep::Fail),
            },
            (ShotPhase::Asking { .. }, ShotEvent::Came { black }) => if black {
                (
                    MonitorShot {
                        phase: ShotPhase::AskingAgain { source: MonitorSource::Gdi },
                    },
                    ShotStep::Ask { source: MonitorSource::Gdi },
                )
            } else {
                (MonitorShot { phase: ShotPhase::Over }, ShotStep::Take { second: false })
            },
            (ShotPhase::AskingAgain { source }, ShotEvent::Failed) => match follows(source) {
                Some(next) => (
                    MonitorShot { phase: ShotPhase::AskingAgain { source: next } },
                    ShotStep::Ask { source: next },
                ),
                None => (
                    MonitorShot { phase: ShotPhase::Over },
                    ShotStep::Take { second: false },
                ),
            },
            (ShotPhase::AskingAgain { .. }, ShotEvent::Came { black }) => (
                MonitorShot { phase: ShotPhase::Over },
                ShotStep::Take { second: !black },
            ),
            (ShotPhase::Over, _) => (self, ShotStep::Ignore),
        }
    }

    /// A capture, and the source that it asks first.
    pub fn new(is_hdr: bool, wgc_enabled: bool) -> (r: (Self, MonitorSource))
        ensures
            r.1 == starts_with(is_hdr, wgc_enabled),
            r.0 == (MonitorShot { phase: ShotPhase::Asking { source: r.1 } }),
    {
        let source = first_source(is_hdr, wgc_enabled);
        (MonitorShot { phase: ShotPhase::Asking { source } }, source)
    }

    /// Takes in what the source answered that was asked last, and says what to
    /// do next.
    pub fn capture_one_monitor(&mut self, event: ShotEvent) -> (s: ShotStep)
        ensures
            (*final(self), s) == old(self).step(event),
    {
        match (self.phase, event) {
            (ShotPhase::Asking { source }, ShotEvent::Failed) => match fallback_source(source) {
                Some(next) => {
                    self.phase = ShotPhase::Asking { source: next };
                    ShotStep::Ask { source: next }
                },
                None => {
                    self.phase = ShotPhase::Over;
                    ShotStep::Fail
                },
            },
            (ShotPhase::Asking { .. }, ShotEvent::Came { black }) => if black {
                self.phase = ShotPhase::AskingAgain { source: MonitorSource::Gdi };
                ShotStep::Ask { source: MonitorSource::Gdi }
            } else {
                self.phase = ShotPhase::Over;
                ShotStep::Take { second: false }
            },
            (
                ShotPhase::AskingAgain { source },
                ShotEvent::Failed,
            ) => match fallback_source(source) {
                Some(next) => {
                    self.phase = ShotPhase::AskingAgain { source: next };
                    ShotStep::Ask { source: next }
                },
                None => {
                    self.phase = ShotPhase::Over;
                    ShotStep::Take { second: false }
                },
            },
            (ShotPhase::AskingAgain { .. }, ShotEvent::Came { black }) => {
                self.phase = ShotPhase::Over;
                ShotStep::Take { second: !black }
            },
            (ShotPhase::Over, _) => ShotStep::Ignore,
        }
    }

    /// How many sources may still be asked.
    pub open spec fn ahead(self) -> int {
        match self.phase {
            ShotPhase::Asking { source } => match source {
                MonitorSource::Wgc => 5,
                MonitorSource::Hdr => 5,
                MonitorSource::Gdi => 4,
                MonitorSource::Listed => 3,
            },
            ShotPhase::AskingAgain { source } => match source {
                MonitorSource::Listed => 1,
                MonitorSource::Gdi => 2,
                _ => 3,
            },
            ShotPhase::Over => 0,
        }
    }
}

/// The capture ends: every answer brings it nearer to its end.
pub proof fn lemma_shot_ends(shot: MonitorShot, event: ShotEvent)
    ensures
        0 <= shot.ahead() <= 5,
        shot.phase != ShotPhase::Over ==> shot.step(event).0.ahead() < shot.ahead(),
        shot.phase == ShotPhase::Over ==> shot.step(event) == (shot, ShotStep::Ignore),
{
}

/// A frame that came is never lost to a later failure: once one is there, the
/// capture ends with a frame, and with the later one only where that shows
/// something.
pub proof fn lemma_frame_is_kept(shot: MonitorShot, event: ShotEvent)
    ensures
        shot.phase is AskingAgain ==> shot.step(event).1 != ShotStep::Fail,
        shot.step(event).1 == (ShotStep::Take { second: true }) ==> shot.phase is AskingAgain
            && event == (ShotEvent::Came { black: false }),
{
}

/// A plain display is copied. An HDR one is captured by the system's service where
/// that is switched on, and tone-mapped otherwise.
pub proof fn lemma_bright_displays_are_not_copied_first(
    is_hdr: bool,
    wgc_enabled: bool,
    s: MonitorSource,
)
    requires
        call_ensures(first_source, (is_hdr, wgc_enabled), s),
    ensures
        s == MonitorSource::Gdi <==> !is_hdr,
        s == MonitorSource::Wgc <==> is_hdr && wgc_enabled,
        s == MonitorSource::Hdr <==> is_hdr && !wgc_enabled,
        s != MonitorSource::Listed,
{
}

/// Where every source fails, the copy is asked next, then the list, and after the
/// list none: each display has been tried in three ways at most.
pub proof fn lemma_every_source_ends_in_the_list(
    s: MonitorSource,
    a: Option<MonitorSource>,
)
    requires
        call_ensures(fallback_source, (s,), a),
    ensures
        a is None <==> s == MonitorSource::Listed,
        s == MonitorSource::Wgc || s == MonitorSource::Hdr ==> a == Some(MonitorSource::Gdi),
        s == MonitorSource::Gdi ==> a == Some(MonitorSource::Listed),
{
}

/// A frame that shows something is taken at once. A black one is taken only after
/// the plain copy was asked once more, and a source that fails gives way to the
/// next.
pub proof fn lemma_black_frames_are_asked_for_again(shot: MonitorShot, event: ShotEvent)
    ensures
        shot.phase is Asking && event == (ShotEvent::Came { black: false }) ==> shot.step(event).1
            == (ShotStep::Take { second: false }),
        shot.phase is Asking && event == (ShotEvent::Came { black: true }) ==> shot.step(event).1
            == (ShotStep::Ask { source: MonitorSource::Gdi }),
        shot.phase is AskingAgain && event == (ShotEvent::Came { black: true }) ==> shot.step(
            event,
        ).1 == (ShotStep::Take { second: false }),
        shot.phase is AskingAgain && event == (ShotEvent::Came { black: false }) ==> shot.step(
            event,
        ).1 == (ShotStep::Take { second: true }),
        shot.phase == (ShotPhase::Asking { source: MonitorSource::Listed }) && event
            == ShotEvent::Failed ==> shot.step(event).1 == ShotStep::Fail,
        shot.step(event).1 == ShotStep::Fail ==> shot.phase == (ShotPhase::Asking {
            source: MonitorSource::Listed,
        }),
        shot.phase == (ShotPhase::Asking { source: MonitorSource::Wgc }) && event
            == ShotEvent::Failed ==> shot.step(event).1 == (ShotStep::Ask {
            source: MonitorSource::Gdi,
        }),
        shot.phase == (ShotPhase::Asking { source: MonitorSource::Hdr }) && event
            == ShotEvent::Failed ==> shot.step(event).1 == (ShotStep::Ask {
            source: MonitorSource::Gdi,
        }),
{
}

/// A new capture asks the source that it names, and has no frame yet.
pub proof fn lemma_new_shot_asks_its_source(
    is_hdr: bool,
    wgc_enabled: bool,
    r: (MonitorShot, MonitorSource),
    first: MonitorSource,
)
    requires
        call_ensures(MonitorShot::new, (is_hdr, wgc_enabled), r),
        call_ensures(first_source, (is_hdr, wgc_enabled), first),
    ensures
        r.1 == first,
        r.0.phase == (ShotPhase::Asking { source: first }),
{
}

} // verus!
