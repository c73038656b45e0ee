//! Frames of the system's capture service, which may be black at first.

use vstd::prelude::*;

use crate::capture::frame;
use crate::capture::frame::{image_from_rows, ByteOrder, RgbaImage};

verus! {

/// How often a frame that shows something is tried for.
pub const FRAME_ATTEMPTS: u32 = 10;

/// How often the pool is asked for a frame in each attempt, two milliseconds
/// apart.
pub const POOL_POLLS: u32 = 30;

/// What an attempt brought.
#[derive(Debug)]
pub enum WgcFrame {
    /// The rows are shorter than the pixels.
    BadPitch,
    /// Nothing is drawn yet: try again after ten milliseconds.
    Black,
    Picture { image: RgbaImage },
}

/// Row `y` holds nothing but zeros.
pub open spec fn zero_row(raw: Seq<u8>, pitch: int, row_bytes: int, y: int) -> bool {
    forall|i: int| 0 <= i < row_bytes ==> #[trigger] raw[y * pitch + i] == 0
}

fn row_is_zero(raw: &[u8], start: usize, row_bytes: usize) -> (r: bool)
    requires
        start + row_bytes <= raw@.len(),
        raw@.len() <= usize::MAX,
    ensures
        r == forall|i: int| 0 <= i < row_bytes ==> #[trigger] raw@[start + i] == 0,
{
    for i in 0..row_bytes
        invariant
            start + row_bytes <= raw@.len(),
            raw@.len() <= usize::MAX,
            forall|k: int| 0 <= k < i ==> #[trigger] raw@[start + k] == 0,
    {
        if raw[start + i] != 0 {
            assert(raw@[start + i as int] != 0);
            return false;
        }
    }
    true
}

/// The first, middle and last row hold nothing but zeros.
pub open spec fn undrawn(raw: Seq<u8>, pitch: int, row_bytes: int, height: int) -> bool {
    &&& zero_row(raw, pitch, row_bytes, 0)
    &&& zero_row(raw, pitch, row_bytes, height / 2)
    &&& zero_row(raw, pitch, row_bytes, height - 1)
}

/// Looks at a mapped frame of BGRA rows that begin `pitch` bytes apart.
pub fn judge_frame(raw: &[u8], width: u32, height: u32, pitch: usize) -> (r: WgcFrame)
    requires
        height > 0,
        width * 4 <= usize::MAX,
        pitch >= width * 4 ==> raw@.len() >= (height - 1) * pitch + width * 4,
    ensures
        pitch < width * 4 ==> r == WgcFrame::BadPitch,
        pitch >= width * 4 && undrawn(raw@, pitch as int, width * 4, height as int) ==> r
            == WgcFrame::Black,
        pitch >= width * 4 && !undrawn(raw@, pitch as int, width * 4, height as int) ==> (
        r matches WgcFrame::Picture { image } && frame::shows_rows(
            image,
            raw@,
            width,
            height,
            pitch,
            ByteOrder::Bgra,
            false,
        )),
{
    let row_bytes: usize = width as usize * 4;
    if pitch < row_bytes {
        return WgcFrame::BadPitch;
    }
    let len: usize = raw.len();
    proof {
        frame::lemma_rows_fit(len as nat, width, height, pitch);
        assert(0 <= (height / 2) * pitch <= (height - 1) * pitch) by (nonlinear_arith)
            requires
                0 < height,
                0 <= pitch,
        ;
    }
    let middle: usize = (height / 2) as usize * pitch;
    let last: usize = (height - 1) as usize * pitch;
    if row_is_zero(raw, 0, row_bytes) && row_is_zero(raw, middle, row_bytes) && row_is_zero(
        raw,
        last,
        row_bytes,
    ) {
        assert(zero_row(raw@, pitch as int, width * 4, 0));
        return WgcFrame::Black;
    }
    proof {
        if undrawn(raw@, pitch as int, width * 4, height as int) {
            assert forall|i: int| 0 <= i < row_bytes implies #[trigger] raw@[0 + i] == 0 by {
                assert(raw@[0 * pitch + i] == 0);
            }
            assert forall|i: int| 0 <= i < row_bytes implies #[trigger] raw@[middle + i] == 0 by {
                assert(raw@[(height as int / 2) * pitch + i] == 0);
            }
            assert forall|i: int| 0 <= i < row_bytes implies #[trigger] raw@[last + i] == 0 by {
                assert(raw@[(height - 1) * pitch + i] == 0);
            }
        }
    }
    WgcFrame::Picture { image: image_from_rows(raw, width, height, pitch, ByteOrder::Bgra, false) }
}

/// What an attempt came to.
#[derive(Clone, Copy, PartialEq, Eq, Structural, Debug)]
pub enum WgcAttempt {
    Picture,
    Black,
    /// No frame, or one that could not be read.
    Nothing,
}

/// How far a capture has come.
#[derive(Clone, Copy, PartialEq, Eq, Structural, Debug)]
pub enum WgcPhase {
    Idle,
    Starting,
    Polling,
    /// The pool had no frame.
    Dozing,
    Reading,
    /// The frame was black.
    Resting,
    Over,
}

/// What came of a step.
#[derive(Clone, Copy, PartialEq, Eq, Structural, Debug)]
pub enum WgcEvent {
    /// The item to capture, with its size.
    Sized { width: i32, height: i32 },
    /// The frames are coming.
    Started,
    Polled { got: bool },
    /// A pause is over.
    Waited,
    Came { attempt: WgcAttempt },
    /// The system refused.
    Failed,
}

/// Why there is no picture.
#[derive(Clone, Copy, PartialEq, Eq, Structural, Debug)]
pub enum WgcFault {
    NoSize,
    NoPicture,
    /// The system refused.
    Refused,
}

impl WgcFault {
    /// The fault in words. `detail` is what the system said.
    pub open spec fn spec_message(self, detail: Seq<char>) -> Seq<char> {
        match self {
            WgcFault::NoSize => "monitor item has zero size"@,
            WgcFault::NoPicture => "WGC: failed to acquire non-black frame after 10 attempts"@,
            WgcFault::Refused => detail,
        }
    }

    pub fn message(&self, detail: &str) -> (s: String)
        ensures
            s@ == self.spec_message(detail@),
    {
        match self {
            WgcFault::NoSize => "monitor item has zero size".to_owned(),
            WgcFault::NoPicture => "WGC: failed to acquire non-black frame after 10 attempts".to_owned(),
            WgcFault::Refused => detail.to_owned(),
        }
    }
}

/// What to do next.
#[derive(Clone, Copy, PartialEq, Eq, Structural, Debug)]
pub enum WgcStep {
    /// Nothing: the event does not belong here.
    Ignore,
    /// Make a device and a pool, and let the frames come, without the pointer.
    Start,
    /// Ask the pool for a frame.
    Poll,
    Wait { ms: u64 },
    /// Copy the frame and look at it.
    Read,
    /// Close the session. The last frame is the picture.
    Accept,
    /// There is no picture. `close` is whether a session is open.
    Fail { fault: WgcFault, close: bool },
}

/// A capture by the system's service.
#[derive(Clone, Copy, PartialEq, Eq, Structural, Debug)]
pub struct WgcGrab {
    pub phase: WgcPhase,
    /// The attempts that are over.
    pub attempt: u32,
    /// How often the pool had nothing in this attempt.
    pub polls: u32,
}

impl WgcGrab {
    pub open spec fn to(self, phase: WgcPhase) -> WgcGrab {
        WgcGrab { phase, ..self }
    }

    pub open spec fn failing(self, fault: WgcFault, close: bool) -> (WgcGrab, WgcStep) {
        (self.to(WgcPhase::Over), WgcStep::Fail { fault, close })
    }

    /// An attempt brought nothing.
    pub open spec fn next_attempt(self) -> (WgcGrab, WgcStep) {
        if self.attempt + 1 < FRAME_ATTEMPTS {
            (
                WgcGrab {
                    phase: WgcPhase::Polling,
                    attempt: (self.attempt + 1) as u32,
                    polls: 0,
                },
                WgcStep::Poll,
            )
        } else {
            self.failing(WgcFault::NoPicture, true)
        }
    }

    /// What an event leads to.
    pub open spec fn step(self, event: WgcEvent) -> (WgcGrab, WgcStep) {
        match (self.phase, event) {
            (WgcPhase::Idle, WgcEvent::Sized { width, height }) => if width <= 0 || height <= 0 {
                self.failing(WgcFault::NoSize, false)
            } else {
                (self.to(WgcPhase::Starting), WgcStep::Start)
            },
            (WgcPhase::Idle, WgcEvent::Failed) => self.failing(WgcFault::Refused, false),
            (WgcPhase::Starting, WgcEvent::Started) => (
                WgcGrab { phase: WgcPhase::Polling, attempt: 0, polls: 0 },
                WgcStep::Poll,
            ),
            (WgcPhase::Starting, WgcEvent::Failed) => self.failing(WgcFault::Refused, false),
            (WgcPhase::Polling, WgcEvent::Polled { got }) => if got {
                (self.to(WgcPhase::Reading), WgcStep::Read)
            } else {
                (self.to(WgcPhase::Dozing), WgcStep::Wait { ms: 2 })
            },
            (WgcPhase::Dozing, WgcEvent::Waited) => if self.polls + 1 < POOL_POLLS {
                (
                    WgcGrab { phase: WgcPhase::Polling, polls: (self.polls + 1) as u32, ..self },
                    WgcStep::Poll,
                )
            } else {
                self.next_attempt()
            },
            (WgcPhase::Reading, WgcEvent::Came { attempt }) => match attempt {
                WgcAttempt::Picture => (self.to(WgcPhase::Over), WgcStep::Accept),
                WgcAttempt::Black => (self.to(WgcPhase::Resting), WgcStep::Wait { ms: 10 }),
                WgcAttempt::Nothing => self.next_attempt(),
            },
            (WgcPhase::Resting, WgcEvent::Waited) => self.next_attempt(),
            _ => (self, WgcStep::Ignore),
        }
    }

    // ---- the machine -------------------------------------------------------------------------

    /// A capture that has not begun.
    pub fn new() -> (r: Self)
        ensures
            r == (WgcGrab { phase: WgcPhase::Idle, attempt: 0, polls: 0 }),
    {
        WgcGrab { phase: WgcPhase::Idle, attempt: 0, polls: 0 }
    }

    fn fail(&mut self, fault: WgcFault, close: bool) -> (s: WgcStep)
        ensures
            (*final(self), s) == old(self).failing(fault, close),
    {
        self.phase = WgcPhase::Over;
        WgcStep::Fail { fault, close }
    }

    fn try_again(&mut self) -> (s: WgcStep)
        ensures
            (*final(self), s) == old(self).next_attempt(),
    {
        if self.attempt < FRAME_ATTEMPTS - 1 {
            self.phase = WgcPhase::Polling;
            self.attempt = self.attempt + 1;
            self.polls = 0;
            WgcStep::Poll
        } else {
            self.fail(WgcFault::NoPicture, true)
        }
    }

    /// Takes in what came of the last step, and says what to do next.
    pub fn capture_item(&mut self, event: WgcEvent) -> (s: WgcStep)
        ensures
            (*final(self), s) == old(self).step(event),
    {
        match (self.phase, event) {
            (WgcPhase::Idle, WgcEvent::Sized { width, height }) => if width <= 0 || height <= 0 {
                self.fail(WgcFault::NoSize, false)
            } else {
                self.phase = WgcPhase::Starting;
                WgcStep::Start
            },
            (WgcPhase::Idle, WgcEvent::Failed) => self.fail(WgcFault::Refused, false),
            (WgcPhase::Starting, WgcEvent::Started) => {
                self.phase = WgcPhase::Polling;
                self.attempt = 0;
                self.polls = 0;
                WgcStep::Poll
            },
            (WgcPhase::Starting, WgcEvent::Failed) => self.fail(WgcFault::Refused, false),
            (WgcPhase::Polling, WgcEvent::Polled { got }) => if got {
                self.phase = WgcPhase::Reading;
                WgcStep::Read
            } else {
                self.phase = WgcPhase::Dozing;
                WgcStep::Wait { ms: 2 }
            },
            (WgcPhase::Dozing, WgcEvent::Waited) => if self.polls < POOL_POLLS - 1 {
                self.phase = WgcPhase::Polling;
                self.polls = self.polls + 1;
                WgcStep::Poll
            } else {
                self.try_again()
            },
            (WgcPhase::Reading, WgcEvent::Came { attempt }) => match attempt {
                WgcAttempt::Picture => {
                    self.phase = WgcPhase::Over;
                    WgcStep::Accept
                },
                WgcAttempt::Black => {
                    self.phase = WgcPhase::Resting;
                    WgcStep::Wait { ms: 10 }
                },
                WgcAttempt::Nothing => self.try_again(),
            },
            (WgcPhase::Resting, WgcEvent::Waited) => self.try_again(),
            _ => WgcStep::Ignore,
        }
    }

    /// The counts of a capture that has begun.
    pub open spec fn counted(self) -> bool {
        self.attempt < FRAME_ATTEMPTS && self.polls < POOL_POLLS
    }

    /// How much of the capture may still lie ahead.
    pub open spec fn ahead(self) -> int {
        let begun = 200 * (FRAME_ATTEMPTS - self.attempt);
        match self.phase {
            WgcPhase::Idle => 4000,
            WgcPhase::Starting => 3900,
            WgcPhase::Polling => begun + 100 - 2 * self.polls,
            WgcPhase::Dozing => begun + 99 - 2 * self.polls,
            WgcPhase::Reading => begun + 20,
            WgcPhase::Resting => begun + 10,
            WgcPhase::Over => 0,
        }
    }
}

/// The capture ends: every event that belongs to it brings it nearer to its
/// end, its counts stay within their limits, and nothing belongs to one that is
/// over.
pub proof fn lemma_capture_ends(g: WgcGrab, event: WgcEvent)
    requires
        g.counted(),
    ensures
        g.step(event).0.counted(),
        0 <= g.ahead() <= 4000,
        g.step(event).1 != WgcStep::Ignore ==> g.step(event).0.ahead() < g.ahead(),
        g.step(event).1 == WgcStep::Ignore ==> g.step(event).0 == g,
        g.phase == WgcPhase::Over ==> g.step(event).1 == WgcStep::Ignore,
{
}

/// A black frame is never the picture, and a session that was opened is closed
/// with the capture.
pub proof fn lemma_black_frames_are_not_taken(g: WgcGrab, event: WgcEvent)
    ensures
        g.step(event).1 == WgcStep::Accept ==> event == (WgcEvent::Came {
            attempt: WgcAttempt::Picture,
        }),
        g.step(event).1 matches WgcStep::Fail { fault, close } ==> close == (g.phase
            != WgcPhase::Idle && g.phase != WgcPhase::Starting),
{
}

/// A frame has the colours of its bytes, blue first, where its first, middle and
/// last row are not all nought.
pub proof fn lemma_service_frames_begin_with_blue(
    raw: &[u8],
    width: u32,
    height: u32,
    pitch: usize,
    r: WgcFrame,
    x: int,
    y: int,
)
    requires
        call_ensures(judge_frame, (raw, width, height, pitch), r),
        width * 4 <= pitch,
        0 <= x < width,
        0 <= y < height,
    ensures
        !(r is BadPitch),
        r matches WgcFrame::Picture { image } ==> {
            let p = image.pixels()[y * width + x];
            let o = y * pitch + x * 4;
            &&& image.spec_width() == width && image.spec_height() == height
            &&& p.b == raw@[o] && p.g == raw@[o + 1] && p.r == raw@[o + 2] && p.a == raw@[o + 3]
        },
{
    if let WgcFrame::Picture { image } = r {
        assert(image.inside(x, y));
        let p = image.px(x, y);
    }
}

/// A byte other than nought in the first, middle or last row shows that a frame
/// was drawn.
pub proof fn lemma_drawn_frames_are_pictures(
    raw: &[u8],
    width: u32,
    height: u32,
    pitch: usize,
    r: WgcFrame,
    i: int,
    y: int,
)
    requires
        call_ensures(judge_frame, (raw, width, height, pitch), r),
        width * 4 <= pitch,
        0 <= i < width * 4,
        y == 0 || y == height / 2 || y == height - 1,
        raw@[y * pitch + i] != 0,
    ensures
        r is Picture,
{
}

/// The service is tried ten times and asked thirty times in each; a frame that
/// came is looked at, and one that was black is waited for ten milliseconds.
pub proof fn lemma_service_is_asked_patiently(g: WgcGrab, event: WgcEvent)
    requires
        g.counted(),
    ensures
        g.attempt < 10 && g.polls < 30,
        g.phase is Idle ==> (event matches WgcEvent::Sized { width, height } ==> (g.step(event).1
            == WgcStep::Start <==> width > 0 && height > 0)),
        g.phase is Polling && event == (WgcEvent::Polled { got: true }) ==> g.step(event).1
            == WgcStep::Read,
        g.phase is Polling && event == (WgcEvent::Polled { got: false }) ==> g.step(event).1
            == (WgcStep::Wait { ms: 2 }),
        g.phase is Reading && event == (WgcEvent::Came { attempt: WgcAttempt::Picture }) ==> g.step(
            event,
        ).1 == WgcStep::Accept,
        g.phase is Reading && event == (WgcEvent::Came { attempt: WgcAttempt::Black }) ==> g.step(
            event,
        ).1 == (WgcStep::Wait { ms: 10 }),
        g.phase is Resting && event == WgcEvent::Waited && g.attempt < 9 ==> g.step(event).1
            == WgcStep::Poll && g.step(event).0.attempt == g.attempt + 1,
        g.phase is Resting && event == WgcEvent::Waited && g.attempt == 9 ==> (g.step(
            event,
        ).1 matches WgcStep::Fail { fault, close } && fault == WgcFault::NoPicture && close),
        g.phase is Dozing && event == WgcEvent::Waited && g.polls < 29 ==> g.step(event).1
            == WgcStep::Poll && g.step(event).0.polls == g.polls + 1 && g.step(event).0.attempt
            == g.attempt,
        g.phase is Dozing && event == WgcEvent::Waited && g.polls == 29 && g.attempt < 9 ==> g.step(
            event,
        ).0.attempt == g.attempt + 1,
{
}

/// A new capture has begun nothing, and waits for the size of what it captures.
pub proof fn lemma_new_service_capture_has_not_begun(g: WgcGrab)
    requires
        call_ensures(WgcGrab::new, (), g),
    ensures
        g.attempt == 0 && g.polls == 0,
        g.step(WgcEvent::Sized { width: 1, height: 1 }).1 == WgcStep::Start,
        g.step(WgcEvent::Started).1 == WgcStep::Ignore,
{
}

} // verus!
