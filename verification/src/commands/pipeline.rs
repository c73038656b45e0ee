//! A capture from its trigger to its last action, as a machine: the program
//! performs an action, and hands back what came of it.

use vstd::prelude::*;

use crate::capture::region::crop_region;
use crate::capture::region::Crop;
use crate::capture::region;
use crate::capture::Rectangle;
use crate::commands::post_action;
use crate::commands::CaptureModeArg;
use crate::commands::PostActionArg;
use crate::config::PostCaptureAction;

verus! {

/// A point of the virtual desktop.
#[derive(Clone, Copy, PartialEq, Eq, Structural, Debug)]
pub struct Point {
    pub x: i32,
    pub y: i32,
}

/// Where the program runs.
#[derive(Clone, Copy, PartialEq, Eq, Structural, Debug)]
pub struct Platform {
    pub windows: bool,
    /// A Wayland session, which there is on Linux only.
    pub wayland: bool,
    pub gnome: bool,
}

/// A frame of the whole desktop, made before the user selects anything.
#[derive(Clone, Copy, PartialEq, Eq, Structural, Debug)]
pub struct FrozenFrame {
    pub width: u32,
    pub height: u32,
    /// The least coordinates of any display.
    pub origin: Point,
}

/// What the user selected.
#[derive(Clone, Copy, PartialEq, Eq, Structural, Debug)]
pub enum Selection {
    Cancelled,
    Region { rect: Rectangle },
    /// A region whose image came with it.
    FrozenRegion { rect: Rectangle },
    Window { id: u32 },
    WaylandWindow { at: Point },
    Monitor { rect: Rectangle, named: bool },
    FullScreen,
    PickedColor { r: u8, g: u8, b: u8 },
}

/// Where the image of a capture comes from.
#[derive(Clone, Copy, PartialEq, Eq, Structural, Debug)]
pub enum Source {
    /// The image that came with the selection.
    Selected,
    /// A part of the frozen frame.
    Frozen { crop: Crop },
    /// A region of the screen as it is now.
    Region { rect: Rectangle },
    /// A region, from the compositor.
    WaylandRegion { rect: Rectangle },
    /// A display by its name, from the compositor.
    WaylandOutput,
    /// The window that was selected, from the compositor.
    WaylandWindow,
    /// A window as it is now. `retry` where a first failure is tried again
    /// after 80 milliseconds.
    Window { id: u32, retry: bool },
    /// The display under the pointer, with its HDR frame where it has one.
    ActiveMonitor,
}

/// What a plugin made of a capture.
#[derive(Clone, Copy, PartialEq, Eq, Structural, Debug)]
pub enum PluginReply {
    Continue,
    Cancel,
    Modified,
}

/// What a plugin is told that was captured.
#[derive(Clone, Copy, PartialEq, Eq, Structural, Debug)]
pub enum CaptureType {
    Region,
    Window,
    FullScreen,
}

/// What came of an action.
#[derive(Clone, Copy, PartialEq, Eq, Structural, Debug)]
pub enum Event {
    /// The trigger: whether a selection is under way, whether a capture is, and
    /// whether the main window is to be seen.
    Triggered { selecting: bool, busy: bool, hub_visible: bool },
    /// The time is up.
    Waited,
    /// The compositor, or the portal, gave the image of a window.
    WindowPicked,
    /// The user chose no window.
    WindowCancelled,
    /// The compositor, or the portal, has no way to choose a window.
    WindowUnavailable,
    /// The desktop was frozen: its frame and the pointer, where there are any.
    Froze { frame: Option<FrozenFrame>, pointer: bool },
    Selected { selection: Selection },
    /// Where a window is, where that is known.
    Located { bounds: Option<Rectangle> },
    /// There is an image: its place on the desktop where only the capture knows
    /// it, and whether an HDR frame came with it.
    Grabbed { place: Option<Point>, hdr: bool },
    Painted,
    Answered { reply: PluginReply },
    /// The last action is done.
    Finished,
    /// The action failed.
    Failed,
}

/// What to do next.
#[derive(Clone, Copy, PartialEq, Eq, Structural, Debug)]
pub enum Action {
    /// Nothing: the event does not belong here.
    Ignore,
    /// End the selection that is under way, and this capture.
    CancelSelection,
    /// The capture is over.
    Stop { failed: bool },
    /// Hide the main window and wait.
    HideHub { ms: u64 },
    Wait { ms: u64 },
    /// Let the compositor choose a window.
    PickWindow,
    /// Let the portal choose a window.
    PickThroughPortal,
    /// List the windows, note the pointer, and freeze the desktop where asked.
    Freeze { desktop: bool },
    Select,
    /// Find where the window is.
    Locate { id: u32 },
    Grab { source: Source },
    /// Paint the pointer, as it was noted or as it is now.
    Paint { noted: bool, origin: Point },
    AskPlugins { what: CaptureType },
    /// Copy a colour as text.
    CopyColor { r: u8, g: u8, b: u8 },
    /// Save the image, with its HDR frame, and open the editor.
    Edit { hdr: bool },
    /// Read the text in the image and copy it.
    ReadText,
    /// What the task asks for.
    Act { action: PostCaptureAction, hdr: bool },
}

/// How far a capture has come.
#[derive(Clone, Copy, PartialEq, Eq, Structural, Debug)]
pub enum Phase {
    Idle,
    HidingHub,
    Delaying,
    PickingWindow,
    PickingThroughPortal,
    Freezing,
    Selecting,
    Settling { selection: Selection },
    Locating { id: u32 },
    Grabbing { place: Option<Point>, ask: bool },
    Painting,
    Asking,
    Acting,
    Over,
}

/// What a capture was asked to do.
#[derive(Clone, Copy, PartialEq, Eq, Structural, Debug)]
pub struct Request {
    pub mode: CaptureModeArg,
    pub post: PostActionArg,
    /// The delay of the task, in place of the one in the settings.
    pub delay_override: Option<u32>,
    pub delay: u32,
    pub show_cursor: bool,
}

/// A capture.
#[derive(Clone, Copy, PartialEq, Eq, Structural, Debug)]
pub struct Pipeline {
    pub request: Request,
    pub platform: Platform,
    pub phase: Phase,
    /// Whether this capture keeps others from starting.
    pub gate: bool,
    /// The region that was last selected.
    pub last_region: Option<Rectangle>,
    pub frame: Option<FrozenFrame>,
    pub pointer: bool,
    pub hdr: bool,
}

/// How long to wait before a capture: the task's own delay or the one in the
/// settings, and half a minute at most.
pub open spec fn delay_of(r: Request) -> u32 {
    let asked = match r.delay_override {
        Some(d) => d,
        None => r.delay,
    };
    if asked > 30_000 {
        30_000
    } else {
        asked
    }
}

/// The region to capture again without a selection.
pub open spec fn replayed(p: Pipeline) -> Option<Rectangle> {
    if p.request.mode == CaptureModeArg::RegionLast {
        p.last_region
    } else {
        None
    }
}

/// What a plugin is told of the mode.
pub open spec fn type_of(mode: CaptureModeArg) -> CaptureType {
    match mode {
        CaptureModeArg::Region => CaptureType::Region,
        CaptureModeArg::RegionLast => CaptureType::Region,
        CaptureModeArg::Window => CaptureType::Window,
        CaptureModeArg::Fullscreen => CaptureType::FullScreen,
        CaptureModeArg::ActiveMonitor => CaptureType::FullScreen,
    }
}

impl Pipeline {
    pub open spec fn to(self, phase: Phase) -> Pipeline {
        Pipeline { phase, ..self }
    }

    /// The capture is over, and others may start.
    pub open spec fn over(self) -> Pipeline {
        Pipeline { phase: Phase::Over, gate: false, ..self }
    }

    // ---- the way of a capture ----------------------------------------------------------------

    /// The main window is out of the way.
    pub open spec fn cleared(self) -> (Pipeline, Action) {
        let ms = delay_of(self.request);
        if ms > 0 {
            (self.to(Phase::Delaying), Action::Wait { ms: ms as u64 })
        } else {
            self.ready()
        }
    }

    /// The delay is over.
    pub open spec fn ready(self) -> (Pipeline, Action) {
        if self.request.mode == CaptureModeArg::Window && self.platform.wayland {
            (self.to(Phase::PickingWindow), Action::PickWindow)
        } else {
            self.offer()
        }
    }

    /// No window was chosen for the capture: the user selects, or there is
    /// nothing to select.
    pub open spec fn offer(self) -> (Pipeline, Action) {
        match replayed(self) {
            Some(rect) => self.chosen(Selection::Region { rect }),
            None => if self.request.mode == CaptureModeArg::ActiveMonitor {
                self.chosen(Selection::FullScreen)
            } else {
                (self.to(Phase::Freezing), Action::Freeze { desktop: !self.platform.wayland })
            },
        }
    }

    /// Grabs an image whose place on the desktop is `place`, or told by the
    /// capture where `ask` is set.
    pub open spec fn grab(self, source: Source, place: Option<Point>, ask: bool) -> (
        Pipeline,
        Action,
    ) {
        (self.to(Phase::Grabbing { place, ask }), Action::Grab { source })
    }

    /// Something was selected.
    pub open spec fn chosen(self, selection: Selection) -> (Pipeline, Action) {
        match selection {
            Selection::Cancelled => (self.over(), Action::Stop { failed: false }),
            Selection::Region { rect } => {
                let p = Pipeline { last_region: Some(rect), ..self };
                let place = Some(Point { x: rect.x, y: rect.y });
                if self.platform.wayland {
                    p.grab(Source::WaylandRegion { rect }, place, false)
                } else {
                    p.grab(p.region_source(rect), place, false)
                }
            },
            Selection::FrozenRegion { rect } => {
                let p = Pipeline { last_region: Some(rect), ..self };
                p.grab(Source::Selected, Some(Point { x: rect.x, y: rect.y }), false)
            },
            Selection::Window { id } => if self.frame is Some {
                (self.to(Phase::Locating { id }), Action::Locate { id })
            } else {
                self.grab(Source::Window { id, retry: true }, None, true)
            },
            Selection::WaylandWindow { at } => if self.platform.windows {
                (self.over(), Action::Stop { failed: false })
            } else {
                self.grab(Source::WaylandWindow, Some(at), false)
            },
            Selection::Monitor { rect, named } => {
                let place = Some(Point { x: rect.x, y: rect.y });
                let source = if self.platform.wayland {
                    if named {
                        Source::WaylandOutput
                    } else {
                        Source::WaylandRegion { rect }
                    }
                } else {
                    Source::Region { rect }
                };
                self.grab(source, place, false)
            },
            Selection::FullScreen => self.grab(Source::ActiveMonitor, None, true),
            Selection::PickedColor { r, g, b } => (
                self.to(Phase::Acting),
                Action::CopyColor { r, g, b },
            ),
        }
    }

    /// Where a region comes from: the frozen frame, unless nothing of the
    /// region is in it.
    pub open spec fn region_source(self, rect: Rectangle) -> Source {
        match self.frame {
            Some(f) => {
                let origin = if self.platform.windows {
                    (f.origin.x, f.origin.y)
                } else {
                    (0i32, 0i32)
                };
                match region::crop_of(rect, origin, f.width, f.height) {
                    Some(crop) => Source::Frozen { crop },
                    None => Source::Region { rect },
                }
            },
            None => Source::Region { rect },
        }
    }

    /// A window in front of a frozen frame was found, or not.
    pub open spec fn located(self, id: u32, bounds: Option<Rectangle>) -> (Pipeline, Action) {
        let live = self.grab(Source::Window { id, retry: false }, None, true);
        match bounds {
            Some(rect) => match self.frame {
                Some(f) => match region::crop_of(
                    rect,
                    (f.origin.x, f.origin.y),
                    f.width,
                    f.height,
                ) {
                    Some(crop) => self.grab(
                        Source::Frozen { crop },
                        Some(Point { x: rect.x, y: rect.y }),
                        false,
                    ),
                    None => live,
                },
                None => live,
            },
            None => live,
        }
    }

    /// There is an image.
    pub open spec fn grabbed(self, place: Option<Point>) -> (Pipeline, Action) {
        match place {
            Some(origin) => if self.request.show_cursor {
                (self.to(Phase::Painting), Action::Paint { noted: self.pointer, origin })
            } else {
                self.painted()
            },
            None => self.painted(),
        }
    }

    /// The pointer is in the image where it belongs there.
    pub open spec fn painted(self) -> (Pipeline, Action) {
        (self.to(Phase::Asking), Action::AskPlugins { what: type_of(self.request.mode) })
    }

    /// The plugins let the capture go on.
    pub open spec fn answered(self) -> (Pipeline, Action) {
        let p = self.to(Phase::Acting);
        let action = match self.request.post {
            PostActionArg::OpenEditor => Action::Edit { hdr: self.hdr },
            PostActionArg::Prompt => Action::Edit { hdr: self.hdr },
            PostActionArg::CopyText => Action::ReadText,
            PostActionArg::Clipboard => Action::Act {
                action: PostCaptureAction::CopyToClipboard,
                hdr: self.hdr,
            },
            PostActionArg::SaveFile => Action::Act {
                action: PostCaptureAction::SaveToFile,
                hdr: self.hdr,
            },
            PostActionArg::Upload => Action::Act {
                action: PostCaptureAction::Upload,
                hdr: self.hdr,
            },
            PostActionArg::SaveAndClipboard => Action::Act {
                action: PostCaptureAction::SaveAndCopy,
                hdr: self.hdr,
            },
            PostActionArg::DoNothing => Action::Act {
                action: PostCaptureAction::DoNothing,
                hdr: self.hdr,
            },
        };
        (p, action)
    }

    /// What an event leads to.
    pub open spec fn step(self, event: Event) -> (Pipeline, Action) {
        match (self.phase, event) {
            (Phase::Idle, Event::Triggered { selecting, busy, hub_visible }) => if selecting {
                (self.to(Phase::Over), Action::CancelSelection)
            } else if busy {
                (self.to(Phase::Over), Action::Stop { failed: false })
            } else {
                let p = Pipeline { gate: true, ..self };
                if hub_visible {
                    (p.to(Phase::HidingHub), Action::HideHub { ms: 34 })
                } else {
                    p.cleared()
                }
            },
            (Phase::HidingHub, Event::Waited) => self.cleared(),
            (Phase::Delaying, Event::Waited) => self.ready(),
            (Phase::PickingWindow, Event::WindowPicked) => self.grab(Source::Selected, None, false),
            (Phase::PickingWindow, Event::WindowCancelled) => (
                self.over(),
                Action::Stop { failed: false },
            ),
            (Phase::PickingWindow, Event::WindowUnavailable) => if self.platform.gnome {
                (self.to(Phase::PickingThroughPortal), Action::PickThroughPortal)
            } else {
                self.offer()
            },
            (Phase::PickingThroughPortal, Event::WindowPicked) => self.grab(
                Source::Selected,
                None,
                false,
            ),
            (Phase::PickingThroughPortal, Event::WindowCancelled) => (
                self.over(),
                Action::Stop { failed: false },
            ),
            (Phase::PickingThroughPortal, Event::WindowUnavailable) => (
                self.over(),
                Action::Stop { failed: false },
            ),
            (Phase::Freezing, Event::Froze { frame, pointer }) => (
                Pipeline {
                    phase: Phase::Selecting,
                    frame: if self.platform.wayland {
                        None
                    } else {
                        frame
                    },
                    pointer,
                    ..self
                },
                Action::Select,
            ),
            (Phase::Selecting, Event::Selected { selection }) => if self.platform.wayland
                && selection != Selection::Cancelled {
                (self.to(Phase::Settling { selection }), Action::Wait { ms: 20 })
            } else {
                self.chosen(selection)
            },
            (Phase::Settling { selection }, Event::Waited) => self.chosen(selection),
            (Phase::Locating { id }, Event::Located { bounds }) => self.located(id, bounds),
            (Phase::Grabbing { place, ask }, Event::Grabbed { place: told, hdr }) => Pipeline {
                hdr,
                ..self
            }.grabbed(
                if ask {
                    told
                } else {
                    place
                },
            ),
            (Phase::Painting, Event::Painted) => self.painted(),
            (Phase::Asking, Event::Answered { reply }) => match reply {
                PluginReply::Cancel => (self.over(), Action::Stop { failed: false }),
                PluginReply::Modified => Pipeline { hdr: false, ..self }.answered(),
                PluginReply::Continue => self.answered(),
            },
            (Phase::Acting, Event::Finished) => (self.over(), Action::Stop { failed: false }),
            (_, Event::Failed) => if self.gate {
                (self.over(), Action::Stop { failed: true })
            } else {
                (self, Action::Ignore)
            },
            _ => (self, Action::Ignore),
        }
    }

    // ---- the machine -------------------------------------------------------------------------

    /// A capture that was not yet triggered.
    pub fn new(request: Request, platform: Platform, last_region: Option<Rectangle>) -> (r: Self)
        ensures
            r == (Pipeline {
                request,
                platform,
                phase: Phase::Idle,
                gate: false,
                last_region,
                frame: None,
                pointer: false,
                hdr: false,
            }),
    {
        Pipeline {
            request,
            platform,
            phase: Phase::Idle,
            gate: false,
            last_region,
            frame: None,
            pointer: false,
            hdr: false,
        }
    }

    fn stop(&mut self, failed: bool) -> (a: Action)
        ensures
            *final(self) == old(self).over(),
            a == (Action::Stop { failed }),
    {
        self.phase = Phase::Over;
        self.gate = false;
        Action::Stop { failed }
    }

    fn go_clear(&mut self) -> (a: Action)
        ensures
            (*final(self), a) == old(self).cleared(),
    {
        let asked: u32 = match self.request.delay_override {
            Some(d) => d,
            None => self.request.delay,
        };
        let ms: u32 = if asked > 30_000 {
            30_000
        } else {
            asked
        };
        if ms > 0 {
            self.phase = Phase::Delaying;
            Action::Wait { ms: ms as u64 }
        } else {
            self.go_ready()
        }
    }

    fn go_ready(&mut self) -> (a: Action)
        ensures
            (*final(self), a) == old(self).ready(),
    {
        if self.request.mode == CaptureModeArg::Window && self.platform.wayland {
            self.phase = Phase::PickingWindow;
            Action::PickWindow
        } else {
            self.go_offer()
        }
    }

    fn go_offer(&mut self) -> (a: Action)
        ensures
            (*final(self), a) == old(self).offer(),
    {
        if self.request.mode == CaptureModeArg::RegionLast {
            if let Some(rect) = self.last_region {
                return self.go_chosen(Selection::Region { rect });
            }
        }
        if self.request.mode == CaptureModeArg::ActiveMonitor {
            self.go_chosen(Selection::FullScreen)
        } else {
            self.phase = Phase::Freezing;
            Action::Freeze { desktop: !self.platform.wayland }
        }
    }

    fn go_grab(&mut self, source: Source, place: Option<Point>, ask: bool) -> (a: Action)
        ensures
            (*final(self), a) == old(self).grab(source, place, ask),
    {
        self.phase = Phase::Grabbing { place, ask };
        Action::Grab { source }
    }

    fn find_region_source(&self, rect: Rectangle) -> (r: Source)
        ensures
            r == self.region_source(rect),
    {
        match self.frame {
            Some(f) => {
                let origin = if self.platform.windows {
                    (f.origin.x, f.origin.y)
                } else {
                    (0i32, 0i32)
                };
                match crop_region(rect, origin, f.width, f.height) {
                    Some(crop) => Source::Frozen { crop },
                    None => Source::Region { rect },
                }
            },
            None => Source::Region { rect },
        }
    }

    fn go_chosen(&mut self, selection: Selection) -> (a: Action)
        ensures
            (*final(self), a) == old(self).chosen(selection),
    {
        match selection {
            Selection::Cancelled => self.stop(false),
            Selection::Region { rect } => {
                self.last_region = Some(rect);
                let source = if self.platform.wayland {
                    Source::WaylandRegion { rect }
                } else {
                    self.find_region_source(rect)
                };
                self.go_grab(source, Some(Point { x: rect.x, y: rect.y }), false)
            },
            Selection::FrozenRegion { rect } => {
                self.last_region = Some(rect);
                self.go_grab(Source::Selected, Some(Point { x: rect.x, y: rect.y }), false)
            },
            Selection::Window { id } => if self.frame.is_some() {
                self.phase = Phase::Locating { id };
                Action::Locate { id }
            } else {
                self.go_grab(Source::Window { id, retry: true }, None, true)
            },
            Selection::WaylandWindow { at } => if self.platform.windows {
                self.stop(false)
            } else {
                self.go_grab(Source::WaylandWindow, Some(at), false)
            },
            Selection::Monitor { rect, named } => {
                let source = if self.platform.wayland {
                    if named {
                        Source::WaylandOutput
                    } else {
                        Source::WaylandRegion { rect }
                    }
                } else {
                    Source::Region { rect }
                };
                self.go_grab(source, Some(Point { x: rect.x, y: rect.y }), false)
            },
            Selection::FullScreen => self.go_grab(Source::ActiveMonitor, None, true),
            Selection::PickedColor { r, g, b } => {
                self.phase = Phase::Acting;
                Action::CopyColor { r, g, b }
            },
        }
    }

    fn go_located(&mut self, id: u32, bounds: Option<Rectangle>) -> (a: Action)
        ensures
            (*final(self), a) == old(self).located(id, bounds),
    {
        if let Some(rect) = bounds {
            if let Some(f) = self.frame {
                if let Some(crop) = crop_region(
                    rect,
                    (f.origin.x, f.origin.y),
                    f.width,
                    f.height,
                ) {
                    return self.go_grab(
                        Source::Frozen { crop },
                        Some(Point { x: rect.x, y: rect.y }),
                        false,
                    );
                }
            }
        }
        self.go_grab(Source::Window { id, retry: false }, None, true)
    }

    fn go_painted(&mut self) -> (a: Action)
        ensures
            (*final(self), a) == old(self).painted(),
    {
        self.phase = Phase::Asking;
        let what = match self.request.mode {
            CaptureModeArg::Region => CaptureType::Region,
            CaptureModeArg::RegionLast => CaptureType::Region,
            CaptureModeArg::Window => CaptureType::Window,
            CaptureModeArg::Fullscreen => CaptureType::FullScreen,
            CaptureModeArg::ActiveMonitor => CaptureType::FullScreen,
        };
        Action::AskPlugins { what }
    }

    fn go_grabbed(&mut self, place: Option<Point>) -> (a: Action)
        ensures
            (*final(self), a) == old(self).grabbed(place),
    {
        if self.request.show_cursor {
            if let Some(origin) = place {
                self.phase = Phase::Painting;
                return Action::Paint { noted: self.pointer, origin };
            }
        }
        self.go_painted()
    }

    fn go_answered(&mut self) -> (a: Action)
        ensures
            (*final(self), a) == old(self).answered(),
    {
        self.phase = Phase::Acting;
        let hdr = self.hdr;
        match self.request.post {
            PostActionArg::OpenEditor => Action::Edit { hdr },
            PostActionArg::Prompt => Action::Edit { hdr },
            PostActionArg::CopyText => Action::ReadText,
            PostActionArg::Clipboard => Action::Act {
                action: PostCaptureAction::CopyToClipboard,
                hdr,
            },
            PostActionArg::SaveFile => Action::Act { action: PostCaptureAction::SaveToFile, hdr },
            PostActionArg::Upload => Action::Act { action: PostCaptureAction::Upload, hdr },
            PostActionArg::SaveAndClipboard => Action::Act {
                action: PostCaptureAction::SaveAndCopy,
                hdr,
            },
            PostActionArg::DoNothing => Action::Act { action: PostCaptureAction::DoNothing, hdr },
        }
    }

    /// Takes in what came of the last action, and says what to do next.
    pub fn advance(&mut self, event: Event) -> (a: Action)
        ensures
            (*final(self), a) == old(self).step(event),
    {
        match (self.phase, event) {
            (Phase::Idle, Event::Triggered { selecting, busy, hub_visible }) => {
                if selecting {
                    self.phase = Phase::Over;
                    return Action::CancelSelection;
                }
                if busy {
                    self.phase = Phase::Over;
                    return Action::Stop { failed: false };
                }
                self.gate = true;
                if hub_visible {
                    self.phase = Phase::HidingHub;
                    Action::HideHub { ms: 34 }
                } else {
                    self.go_clear()
                }
            },
            (Phase::HidingHub, Event::Waited) => self.go_clear(),
            (Phase::Delaying, Event::Waited) => self.go_ready(),
            (Phase::PickingWindow, Event::WindowPicked) => self.go_grab(
                Source::Selected,
                None,
                false,
            ),
            (Phase::PickingWindow, Event::WindowCancelled) => self.stop(false),
            (Phase::PickingWindow, Event::WindowUnavailable) => if self.platform.gnome {
                self.phase = Phase::PickingThroughPortal;
                Action::PickThroughPortal
            } else {
                self.go_offer()
            },
            (Phase::PickingThroughPortal, Event::WindowPicked) => self.go_grab(
                Source::Selected,
                None,
                false,
            ),
            (Phase::PickingThroughPortal, Event::WindowCancelled) => self.stop(false),
            (Phase::PickingThroughPortal, Event::WindowUnavailable) => self.stop(false),
            (Phase::Freezing, Event::Froze { frame, pointer }) => {
                self.phase = Phase::Selecting;
                self.frame =
                if self.platform.wayland {
                    None
                } else {
                    frame
                };
                self.pointer = pointer;
                Action::Select
            },
            (Phase::Selecting, Event::Selected { selection }) => if self.platform.wayland
                && selection != Selection::Cancelled {
                self.phase = Phase::Settling { selection };
                Action::Wait { ms: 20 }
            } else {
                self.go_chosen(selection)
            },
            (Phase::Settling { selection }, Event::Waited) => self.go_chosen(selection),
            (Phase::Locating { id }, Event::Located { bounds }) => self.go_located(id, bounds),
            (Phase::Grabbing { place, ask }, Event::Grabbed { place: told, hdr }) => {
                self.hdr = hdr;
                self.go_grabbed(
                    if ask {
                        told
                    } else {
                        place
                    },
                )
            },
            (Phase::Painting, Event::Painted) => self.go_painted(),
            (Phase::Asking, Event::Answered { reply }) => match reply {
                PluginReply::Cancel => self.stop(false),
                PluginReply::Modified => {
                    self.hdr = false;
                    self.go_answered()
                },
                PluginReply::Continue => self.go_answered(),
            },
            (Phase::Acting, Event::Finished) => self.stop(false),
            (_, Event::Failed) => if self.gate {
                self.stop(true)
            } else {
                Action::Ignore
            },
            _ => Action::Ignore,
        }
    }
}

// ---- laws ------------------------------------------------------------------------------------

/// The capture is under way.
pub open spec fn running(p: Pipeline) -> bool {
    p.phase != Phase::Idle && p.phase != Phase::Over
}

/// What holds of every capture: it keeps others from starting exactly while it
/// is under way, there is no frozen frame on Wayland, and a region that is
/// captured again is never selected.
pub open spec fn sound(p: Pipeline) -> bool {
    &&& p.gate == running(p)
    &&& p.platform.wayland ==> p.frame is None
    &&& p.request.mode == CaptureModeArg::RegionLast && p.last_region is Some ==> p.phase
        != Phase::Freezing && (p.phase == Phase::Selecting ==> false)
}

/// A capture begins sound.
pub proof fn lemma_new_capture_is_sound(
    request: Request,
    platform: Platform,
    last_region: Option<Rectangle>,
)
    ensures
        sound(
            Pipeline {
                request,
                platform,
                phase: Phase::Idle,
                gate: false,
                last_region,
                frame: None,
                pointer: false,
                hdr: false,
            },
        ),
{
}

/// Every event leaves a sound capture sound.
#[verifier::rlimit(80)]
#[verifier::spinoff_prover]
pub proof fn lemma_step_keeps_sound(p: Pipeline, event: Event)
    requires
        sound(p),
    ensures
        sound(p.step(event).0),
{
}

/// Whenever a capture is told to stop, by success, failure or the user, it no
/// longer keeps others from starting.
#[verifier::rlimit(80)]
#[verifier::spinoff_prover]
pub proof fn lemma_stop_opens_the_gate(p: Pipeline, event: Event)
    requires
        sound(p),
        p.step(event).1 is Stop || p.step(event).1 is CancelSelection,
    ensures
        !p.step(event).0.gate,
        p.step(event).0.phase == Phase::Over,
{
    lemma_step_keeps_sound(p, event);
}

/// A trigger during another capture, or during a selection, captures nothing
/// and holds nothing up.
pub proof fn lemma_busy_trigger_does_nothing(p: Pipeline, selecting: bool, busy: bool, hub: bool)
    requires
        p.phase == Phase::Idle,
        !p.gate,
        selecting || busy,
    ensures
        ({
            let (q, a) = p.step(Event::Triggered { selecting, busy, hub_visible: hub });
            &&& q == p.to(Phase::Over)
            &&& a == (if selecting {
                Action::CancelSelection
            } else {
                Action::Stop { failed: false }
            })
        }),
{
}

/// Once the last region is known, capturing it again never shows the selector.
#[verifier::rlimit(80)]
#[verifier::spinoff_prover]
pub proof fn lemma_last_region_is_not_selected_again(p: Pipeline, event: Event)
    requires
        sound(p),
        p.request.mode == CaptureModeArg::RegionLast,
        p.last_region is Some,
    ensures
        !(p.step(event).1 is Freeze),
        !(p.step(event).1 is Select),
        p.step(event).0.last_region is Some,
{
}

/// No wait before a capture is longer than half a minute.
#[verifier::rlimit(80)]
#[verifier::spinoff_prover]
pub proof fn lemma_waits_are_short(p: Pipeline, event: Event)
    ensures
        p.step(event).1 matches Action::Wait { ms } ==> ms <= 30_000,
        p.step(event).1 matches Action::HideHub { ms } ==> ms <= 30_000,
{
}

/// A region that was selected is the one that is captured again.
pub proof fn lemma_region_is_remembered(p: Pipeline, rect: Rectangle)
    ensures
        p.chosen(Selection::Region { rect }).0.last_region == Some(rect),
        p.chosen(Selection::FrozenRegion { rect }).0.last_region == Some(rect),
{
}

/// The HDR frame of a capture that a plugin changed is not kept.
pub proof fn lemma_modified_image_drops_hdr(p: Pipeline)
    requires
        p.phase == Phase::Asking,
    ensures
        ({
            let (q, a) = p.step(Event::Answered { reply: PluginReply::Modified });
            &&& !q.hdr
            &&& (a matches Action::Edit { hdr } ==> !hdr)
            &&& (a matches Action::Act { hdr, .. } ==> !hdr)
        }),
{
}

/// The pointer is painted only where the user wants it and the image has a
/// place on the desktop.
#[verifier::rlimit(80)]
#[verifier::spinoff_prover]
pub proof fn lemma_pointer_is_painted_on_request(p: Pipeline, event: Event)
    requires
        p.step(event).1 is Paint,
    ensures
        p.request.show_cursor,
{
}

/// A part of the frozen frame lies inside it.
#[verifier::rlimit(80)]
#[verifier::spinoff_prover]
pub proof fn lemma_frozen_part_lies_inside(p: Pipeline, event: Event, f: FrozenFrame)
    requires
        p.frame == Some(f),
        p.step(event).1 matches Action::Grab { source } && source is Frozen,
    ensures
        p.step(event).1 matches Action::Grab { source: Source::Frozen { crop } } ==> crop.x
            + crop.width <= f.width && crop.y + crop.height <= f.height && crop.width > 0
            && crop.height > 0,
{
}

/// A capture ends with what its task asks for. `SaveFile` and `SaveAndClipboard`
/// save to a file, `Clipboard` and `SaveAndClipboard` use the clipboard, `Upload`
/// alone uploads, `OpenEditor` and `Prompt` open the editor, `CopyText` reads the
/// text, and `DoNothing` does none of these.
pub proof fn lemma_capture_ends_as_asked(p: Pipeline, reply: PluginReply)
    requires
        p.phase == Phase::Asking,
        reply != PluginReply::Cancel,
    ensures
        ({
            let (q, a) = p.step(Event::Answered { reply });
            let post = p.request.post;
            let acts = a is Act;
            let action = a->Act_action;
            &&& q.phase == Phase::Acting
            &&& a is Edit <==> post == PostActionArg::OpenEditor || post == PostActionArg::Prompt
            &&& a is ReadText <==> post == PostActionArg::CopyText
            &&& acts <==> !(a is Edit) && !(a is ReadText)
            &&& acts ==> (post_action::saves(action) <==> post == PostActionArg::SaveFile || post
                == PostActionArg::SaveAndClipboard)
            &&& acts ==> (post_action::copies(action) <==> post == PostActionArg::Clipboard || post
                == PostActionArg::SaveAndClipboard)
            &&& acts ==> (post_action::uploads(action) <==> post == PostActionArg::Upload)
            &&& acts && post == PostActionArg::DoNothing ==> !post_action::saves(action)
                && !post_action::copies(action) && !post_action::uploads(action)
            &&& reply == PluginReply::Continue ==> ((a matches Action::Act { hdr, .. } ==> hdr
                == p.hdr) && (a matches Action::Edit { hdr } ==> hdr == p.hdr))
        }),
{
}

/// From the task's post-action to the clipboard, the file and the upload: the
/// first step of the action that a capture ends with is that of the task.
pub proof fn lemma_task_reaches_its_goal(p: Pipeline, run: post_action::PostRun, ok: bool)
    requires
        p.phase == Phase::Asking,
        p.step(Event::Answered { reply: PluginReply::Continue }).1 matches Action::Act {
            action,
            ..
        } && run.action == action,
        run.phase == post_action::PostPhase::Idle,
        !run.keep_history,
    ensures
        ({
            let (q, first) = run.step(post_action::PostEvent::Begin { has_history: true });
            let (_, second) = q.step(post_action::PostEvent::Copied { ok });
            let file = post_action::PostStep::Write { target: post_action::FileTarget::Output };
            let post = p.request.post;
            &&& first == post_action::PostStep::Copy <==> post == PostActionArg::Clipboard || post
                == PostActionArg::SaveAndClipboard
            &&& first == file || second == file <==> post == PostActionArg::SaveFile || post
                == PostActionArg::SaveAndClipboard
            &&& first == post_action::PostStep::Upload <==> post == PostActionArg::Upload
        }),
{
    lemma_capture_ends_as_asked(p, PluginReply::Continue);
    post_action::lemma_actions_do_what_they_say(run, true, ok);
}

/// What is captured follows from the mode. The display under the pointer is
/// grabbed without a selection; a window of a Wayland session is chosen by the
/// compositor; everything else is selected by the user, on a frozen desktop
/// unless the session is a Wayland one.
pub proof fn lemma_mode_decides_what_is_captured(p: Pipeline)
    requires
        p.phase == Phase::Delaying,
    ensures
        ({
            let (q, a) = p.step(Event::Waited);
            let mode = p.request.mode;
            &&& mode == CaptureModeArg::ActiveMonitor ==> a == (Action::Grab {
                source: Source::ActiveMonitor,
            })
            &&& mode == CaptureModeArg::Window && p.platform.wayland ==> a == Action::PickWindow
            &&& mode == CaptureModeArg::RegionLast && p.last_region is Some ==> a is Grab
            &&& mode == CaptureModeArg::Region || mode == CaptureModeArg::Fullscreen || mode
                == CaptureModeArg::Window && !p.platform.wayland || mode
                == CaptureModeArg::RegionLast && p.last_region is None ==> a == (Action::Freeze {
                desktop: !p.platform.wayland,
            })
        }),
{
}

/// A capture waits first for the main window to be gone, then for the task's own
/// delay or, where it has none, that of the settings, half a minute at most; and
/// not at all where neither is asked for.
pub proof fn lemma_capture_waits_as_asked(p: Pipeline, hub: bool)
    requires
        p.phase == Phase::Idle,
    ensures
        ({
            let (q, a) = p.step(Event::Triggered { selecting: false, busy: false, hub_visible: hub });
            let (_, b) = q.step(Event::Waited);
            let asked = match p.request.delay_override {
                Some(d) => d,
                None => p.request.delay,
            };
            let next = if hub {
                b
            } else {
                a
            };
            &&& q.gate
            &&& a is HideHub <==> hub
            &&& 0 < asked <= 30_000 ==> next == (Action::Wait { ms: asked as u64 })
            &&& asked > 30_000 ==> next == (Action::Wait { ms: 30_000 })
            &&& asked == 0 ==> !(next is Wait)
        }),
{
}

/// What the user selects is what is grabbed: the region at its own place, the
/// window by its own number, the display at its own place, the whole display
/// under the pointer; a colour is copied as it was picked, and a selection that
/// was called off grabs nothing.
pub proof fn lemma_selection_is_what_is_grabbed(p: Pipeline, selection: Selection)
    requires
        p.phase == Phase::Selecting,
        !p.platform.wayland,
        p.frame is None,
    ensures
        ({
            let (q, a) = p.step(Event::Selected { selection });
            &&& selection matches Selection::Region { rect } ==> a == (Action::Grab {
                source: Source::Region { rect },
            }) && q.last_region == Some(rect) && q.phase == (Phase::Grabbing {
                place: Some(Point { x: rect.x, y: rect.y }),
                ask: false,
            })
            &&& selection matches Selection::Window { id } ==> (a matches Action::Grab {
                source: Source::Window { id: got, .. },
            } && got == id)
            &&& selection matches Selection::Monitor { rect, .. } ==> a == (Action::Grab {
                source: Source::Region { rect },
            }) && q.last_region == p.last_region
            &&& selection is FullScreen ==> a == (Action::Grab { source: Source::ActiveMonitor })
            &&& selection matches Selection::PickedColor { r, g, b } ==> a == (Action::CopyColor {
                r,
                g,
                b,
            })
            &&& selection is Cancelled ==> a == (Action::Stop { failed: false })
        }),
{
}

/// In a Wayland session the compositor gives what was selected: the region at
/// its own place, the display by its name where it has one, the window that was
/// picked.
pub proof fn lemma_wayland_selection_is_what_is_grabbed(p: Pipeline, selection: Selection)
    requires
        p.phase == Phase::Selecting,
        p.platform.wayland,
        !p.platform.windows,
        p.frame is None,
        !(selection is Cancelled),
    ensures
        ({
            let (w, wait) = p.step(Event::Selected { selection });
            let (q, a) = w.step(Event::Waited);
            &&& wait == (Action::Wait { ms: 20 })
            &&& selection matches Selection::Region { rect } ==> a == (Action::Grab {
                source: Source::WaylandRegion { rect },
            }) && q.last_region == Some(rect)
            &&& selection matches Selection::FrozenRegion { rect } ==> a == (Action::Grab {
                source: Source::Selected,
            }) && q.last_region == Some(rect)
            &&& selection is WaylandWindow ==> a == (Action::Grab { source: Source::WaylandWindow })
            &&& selection matches Selection::Monitor { rect, named } ==> (if named {
                a == (Action::Grab { source: Source::WaylandOutput })
            } else {
                a == (Action::Grab { source: Source::WaylandRegion { rect } })
            })
        }),
{
}

/// A region that lies inside the frozen desktop is cut out of it, pixel for
/// pixel where it was selected.
pub proof fn lemma_region_is_cut_out_of_the_frozen_desktop(p: Pipeline, f: FrozenFrame, rect: Rectangle)
    requires
        p.phase == Phase::Selecting,
        !p.platform.wayland,
        p.frame == Some(f),
        f.origin.x <= rect.x && rect.x + rect.width <= f.origin.x + f.width,
        f.origin.y <= rect.y && rect.y + rect.height <= f.origin.y + f.height,
        p.platform.windows || f.origin == (Point { x: 0, y: 0 }),
        rect.width > 0 && rect.height > 0,
    ensures
        p.step(Event::Selected { selection: Selection::Region { rect } }).1 matches Action::Grab {
            source: Source::Frozen { crop },
        } && crop.x == rect.x - f.origin.x && crop.y == rect.y - f.origin.y && crop.width
            == rect.width && crop.height == rect.height,
{
}

/// A window that was selected on a frozen desktop is cut out of it where it is;
/// where that is not known, it is grabbed as it is now.
pub proof fn lemma_window_is_cut_out_where_it_is(p: Pipeline, f: FrozenFrame, id: u32, rect: Rectangle)
    requires
        p.phase == (Phase::Locating { id }),
        p.frame == Some(f),
        f.origin.x <= rect.x && rect.x + rect.width <= f.origin.x + f.width,
        f.origin.y <= rect.y && rect.y + rect.height <= f.origin.y + f.height,
        rect.width > 0 && rect.height > 0,
    ensures
        p.step(Event::Located { bounds: Some(rect) }).1 matches Action::Grab {
            source: Source::Frozen { crop },
        } && crop.x == rect.x - f.origin.x && crop.y == rect.y - f.origin.y && crop.width
            == rect.width && crop.height == rect.height,
        p.step(Event::Located { bounds: None }).1 == (Action::Grab {
            source: Source::Window { id, retry: false },
        }),
{
}

/// The pointer is painted exactly where the user wants it and the place of the
/// image is known, and at that place; the plugins are asked in any case, and told
/// what was captured.
pub proof fn lemma_pointer_then_plugins(p: Pipeline, place: Option<Point>, ask: bool, told: Option<Point>, hdr: bool)
    requires
        p.phase == (Phase::Grabbing { place, ask }),
    ensures
        ({
            let (q, a) = p.step(Event::Grabbed { place: told, hdr });
            let (_, b) = q.step(Event::Painted);
            let known = if ask {
                told
            } else {
                place
            };
            let asked = if a is Paint {
                b
            } else {
                a
            };
            let mode = p.request.mode;
            &&& q.hdr == hdr
            &&& a is Paint <==> p.request.show_cursor && known is Some
            &&& a matches Action::Paint { noted, origin } ==> known == Some(origin) && noted
                == p.pointer
            &&& asked matches Action::AskPlugins { what } && {
                &&& what == CaptureType::Region <==> mode == CaptureModeArg::Region || mode
                    == CaptureModeArg::RegionLast
                &&& what == CaptureType::Window <==> mode == CaptureModeArg::Window
            }
        }),
{
}

/// A plugin that calls a capture off ends it, and nothing is done with it.
pub proof fn lemma_plugin_can_call_off(p: Pipeline)
    requires
        p.phase == Phase::Asking,
    ensures
        p.step(Event::Answered { reply: PluginReply::Cancel }).1 == (Action::Stop { failed: false }),
        p.step(Event::Answered { reply: PluginReply::Cancel }).0.phase == Phase::Over,
        !p.step(Event::Answered { reply: PluginReply::Cancel }).0.gate,
{
}

/// Where the compositor cannot choose a window, Gnome asks the portal and any
/// other desktop lets the user select; a window that was chosen is the capture,
/// and a choice that was called off ends it.
pub proof fn lemma_window_is_chosen_by_the_desktop(p: Pipeline)
    requires
        p.phase == Phase::PickingWindow,
        p.request.mode == CaptureModeArg::Window,
    ensures
        p.step(Event::WindowPicked).1 == (Action::Grab { source: Source::Selected }),
        p.step(Event::WindowCancelled).1 == (Action::Stop { failed: false }),
        p.platform.gnome ==> p.step(Event::WindowUnavailable).1 == Action::PickThroughPortal,
        !p.platform.gnome ==> p.step(Event::WindowUnavailable).1 == (Action::Freeze {
            desktop: !p.platform.wayland,
        }),
{
}

/// Once the desktop stands still, the user selects on it. Off Wayland the frame is
/// kept for the cut, and on it it is not.
pub proof fn lemma_user_selects_on_the_frozen_desktop(
    p: Pipeline,
    frame: Option<FrozenFrame>,
    pointer: bool,
)
    requires
        p.phase is Freezing,
    ensures
        ({
            let (q, a) = p.step(Event::Froze { frame, pointer });
            &&& a == Action::Select
            &&& q.phase == Phase::Selecting
            &&& q.pointer == pointer
            &&& p.platform.wayland ==> q.frame is None
            &&& !p.platform.wayland ==> q.frame == frame
        }),
{
}

/// A new capture waits for its trigger and holds nothing; the trigger is answered,
/// and nothing else is.
pub proof fn lemma_new_capture_waits_for_its_trigger(
    request: Request,
    platform: Platform,
    last: Option<Rectangle>,
    p: Pipeline,
    hub: bool,
    event: Event,
)
    requires
        call_ensures(Pipeline::new, (request, platform, last), p),
    ensures
        p.step(
            Event::Triggered { selecting: true, busy: false, hub_visible: hub },
        ).1 == Action::CancelSelection,
        p.step(Event::Triggered { selecting: false, busy: true, hub_visible: hub }).1
            == (Action::Stop { failed: false }),
        p.step(Event::Triggered { selecting: false, busy: false, hub_visible: true }).1
            == (Action::HideHub { ms: 34 }),
        !(event is Triggered) ==> p.step(event) == (p, Action::Ignore),
        p.request == request && p.platform == platform && p.last_region == last,
        p.frame is None && !p.pointer && !p.hdr && !p.gate,
{
}

/// A capture that the user called off, or whose action is done, stops without a
/// failure; a failure stops it with one, and lets others start.
pub proof fn lemma_captures_stop_in_order(p: Pipeline)
    ensures
        p.phase is Acting ==> p.step(Event::Finished).1 == (Action::Stop { failed: false }),
        p.phase is Selecting ==> p.step(
            Event::Selected { selection: Selection::Cancelled },
        ).1 == (Action::Stop { failed: false }),
        p.phase is PickingWindow ==> p.step(Event::WindowCancelled).1 == (Action::Stop {
            failed: false,
        }),
        p.phase is PickingThroughPortal ==> p.step(Event::WindowCancelled).1 == (Action::Stop {
            failed: false,
        }) && p.step(Event::WindowUnavailable).1 == (Action::Stop { failed: false }) && p.step(
            Event::WindowPicked,
        ).1 == (Action::Grab { source: Source::Selected }),
        p.gate ==> p.step(Event::Failed).1 == (Action::Stop { failed: true }) && !p.step(
            Event::Failed,
        ).0.gate,
        !p.gate ==> p.step(Event::Failed) == (p, Action::Ignore),
{
}

} // verus!
