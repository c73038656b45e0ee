//! Copies of whole outputs through the compositor's standard protocol: what it
//! asks of buffers, and what becomes of a frame.

use vstd::prelude::*;

use crate::capture::frame;
use crate::capture::frame::{image_from_rows, ByteOrder, RgbaImage};

verus! {

/// The formats of a shared buffer, by name where they can be read.
#[derive(Clone, Copy, PartialEq, Eq, Structural, Debug)]
pub enum ShmFormat {
    Argb8888,
    Xrgb8888,
    Abgr8888,
    Xbgr8888,
    Other(u32),
}

/// The format to use of those that are offered: the first of the four readable
/// ones, those with alpha before those without.
pub open spec fn preferred(offered: Seq<ShmFormat>) -> Option<ShmFormat> {
    if offered.contains(ShmFormat::Argb8888) {
        Some(ShmFormat::Argb8888)
    } else if offered.contains(ShmFormat::Xrgb8888) {
        Some(ShmFormat::Xrgb8888)
    } else if offered.contains(ShmFormat::Abgr8888) {
        Some(ShmFormat::Abgr8888)
    } else if offered.contains(ShmFormat::Xbgr8888) {
        Some(ShmFormat::Xbgr8888)
    } else {
        None
    }
}

fn offers(offered: &[ShmFormat], f: ShmFormat) -> (r: bool)
    ensures
        r == offered@.contains(f),
{
    for i in 0..offered.len()
        invariant
            forall|k: int| 0 <= k < i ==> offered@[k] != f,
    {
        if offered[i] == f {
            assert(offered@[i as int] == f);
            return true;
        }
    }
    false
}

/// The format to use of those that are offered.
pub fn pick_format(offered: &[ShmFormat]) -> (r: Option<ShmFormat>)
    ensures
        r == preferred(offered@),
{
    if offers(offered, ShmFormat::Argb8888) {
        Some(ShmFormat::Argb8888)
    } else if offers(offered, ShmFormat::Xrgb8888) {
        Some(ShmFormat::Xrgb8888)
    } else if offers(offered, ShmFormat::Abgr8888) {
        Some(ShmFormat::Abgr8888)
    } else if offers(offered, ShmFormat::Xbgr8888) {
        Some(ShmFormat::Xbgr8888)
    } else {
        None
    }
}

/// What the compositor announces of a session.
#[derive(Clone, Copy, PartialEq, Eq, Structural, Debug)]
pub enum SessionEvent {
    BufferSize { width: u32, height: u32 },
    ShmFormat(ShmFormat),
    Done,
    Stopped,
}

/// What the compositor asks of the buffers of a session.
#[derive(Debug)]
pub struct SessionConstraints {
    pub width: u32,
    pub height: u32,
    pub shm_formats: Vec<ShmFormat>,
    pub done: bool,
    pub stopped: bool,
}

impl SessionConstraints {
    pub fn new() -> (r: Self)
        ensures
            r.width == 0,
            r.height == 0,
            r.shm_formats@ == Seq::<ShmFormat>::empty(),
            !r.done,
            !r.stopped,
    {
        SessionConstraints { width: 0, height: 0, shm_formats: Vec::new(), done: false, stopped: false }
    }

    /// The formats that still count: a new batch of announcements after a
    /// complete one starts from none.
    pub open spec fn batch(&self) -> Seq<ShmFormat> {
        if self.done {
            Seq::empty()
        } else {
            self.shm_formats@
        }
    }

    /// Takes an announcement.
    pub fn on_event(&mut self, e: SessionEvent)
        ensures
            match e {
                SessionEvent::BufferSize { width, height } => final(self).width == width && final(self).height == height && final(self).shm_formats@ == old(self).batch() && !final(self).done && final(self).stopped == old(self).stopped,
                SessionEvent::ShmFormat(f) => final(self).width == old(self).width && final(self).height == old(self).height && final(self).shm_formats@ == old(self).batch().push(
                    f,
                ) && !final(self).done && final(self).stopped == old(self).stopped,
                SessionEvent::Done => final(self).width == old(self).width && final(self).height
                    == old(self).height && final(self).shm_formats@ == old(self).shm_formats@
                    && final(self).done && final(self).stopped == old(self).stopped,
                SessionEvent::Stopped => final(self).width == old(self).width && final(self).height
                    == old(self).height && final(self).shm_formats@ == old(self).shm_formats@
                    && final(self).done == old(self).done && final(self).stopped,
            },
    {
        match e {
            SessionEvent::BufferSize { width, height } => {
                if self.done {
                    self.done = false;
                    self.shm_formats.clear();
                }
                self.width = width;
                self.height = height;
            },
            SessionEvent::ShmFormat(f) => {
                if self.done {
                    self.done = false;
                    self.shm_formats.clear();
                }
                self.shm_formats.push(f);
            },
            SessionEvent::Done => {
                self.done = true;
            },
            SessionEvent::Stopped => {
                self.stopped = true;
            },
        }
    }

    /// Whether a buffer can be made, or never will be.
    pub fn settled(&self) -> (r: bool)
        ensures
            r == (self.done || self.stopped),
    {
        self.done || self.stopped
    }
}

/// Whether a live session serves a new request: it paints the pointer as asked
/// and was not stopped.
pub fn can_reuse(paints_cursor: bool, stopped: Option<bool>, include_cursor: bool) -> (r: bool)
    ensures
        r == (paints_cursor == include_cursor && stopped == Some(false)),
{
    match stopped {
        Some(s) => paints_cursor == include_cursor && !s,
        None => false,
    }
}

/// Why no frame came of a session.
#[derive(Clone, Copy, PartialEq, Eq, Structural, Debug)]
pub enum ExtCopyError {
    /// The session was stopped: a new one may do.
    SessionStopped,
    /// The session was stopped while a frame was on its way.
    StoppedMidFrame,
    /// The buffer no longer fits: a new session may do.
    ConstraintsChanged,
    ZeroSized,
    NoSupportedFormat,
    Overflow,
    CaptureFailed,
    UnhandledFormat,
}

impl ExtCopyError {
    pub open spec fn spec_retryable(self) -> bool {
        self == ExtCopyError::SessionStopped || self == ExtCopyError::StoppedMidFrame || self
            == ExtCopyError::ConstraintsChanged
    }

    /// Whether a clean session may do better.
    pub fn retryable(&self) -> (r: bool)
        ensures
            r == self.spec_retryable(),
    {
        match self {
            ExtCopyError::SessionStopped => true,
            ExtCopyError::StoppedMidFrame => true,
            ExtCopyError::ConstraintsChanged => true,
            _ => false,
        }
    }

    /// The error in words. `detail` is the reason that the compositor gave, or
    /// the formats that could not be read.
    pub open spec fn spec_message(self, detail: Seq<char>) -> Seq<char> {
        match self {
            ExtCopyError::SessionStopped => "session stopped by compositor"@,
            ExtCopyError::StoppedMidFrame => "session stopped mid-frame"@,
            ExtCopyError::ConstraintsChanged => "buffer constraints changed"@,
            ExtCopyError::ZeroSized => "compositor advertised a zero-sized capture buffer"@,
            ExtCopyError::NoSupportedFormat => "no supported shm format among "@ + detail,
            ExtCopyError::Overflow => "buffer width overflow"@,
            ExtCopyError::CaptureFailed => "capture failed: "@ + detail,
            ExtCopyError::UnhandledFormat => "unhandled shm format "@ + detail,
        }
    }

    pub fn message(&self, detail: &str) -> (s: String)
        ensures
            s@ == self.spec_message(detail@),
    {
        match self {
            ExtCopyError::SessionStopped => "session stopped by compositor".to_owned(),
            ExtCopyError::StoppedMidFrame => "session stopped mid-frame".to_owned(),
            ExtCopyError::ConstraintsChanged => "buffer constraints changed".to_owned(),
            ExtCopyError::ZeroSized => "compositor advertised a zero-sized capture buffer".to_owned(),
            ExtCopyError::NoSupportedFormat => {
                let mut s = "no supported shm format among ".to_owned();
                s.append(detail);
                s
            },
            ExtCopyError::Overflow => "buffer width overflow".to_owned(),
            ExtCopyError::CaptureFailed => {
                let mut s = "capture failed: ".to_owned();
                s.append(detail);
                s
            },
            ExtCopyError::UnhandledFormat => {
                let mut s = "unhandled shm format ".to_owned();
                s.append(detail);
                s
            },
        }
    }
}

/// A buffer that is there.
#[derive(Clone, Copy, PartialEq, Eq, Structural, Debug)]
pub struct BufferShape {
    pub width: u32,
    pub height: u32,
    pub format: ShmFormat,
}

/// The buffer that a frame needs, and whether it must be made anew.
#[derive(Clone, Copy, PartialEq, Eq, Structural, Debug)]
pub struct FramePlan {
    pub shape: BufferShape,
    pub allocate: bool,
}

/// Plans the next frame of a session: a stopped session is replaced, an empty
/// source or one without a readable format is refused, and the buffer is kept
/// as long as it fits.
pub fn plan_frame(c: &SessionConstraints, buffer: Option<BufferShape>) -> (r: Result<
    FramePlan,
    ExtCopyError,
>)
    ensures
        r == (if c.stopped {
            Err::<FramePlan, ExtCopyError>(ExtCopyError::SessionStopped)
        } else if c.width == 0 || c.height == 0 {
            Err(ExtCopyError::ZeroSized)
        } else {
            match preferred(c.shm_formats@) {
                None => Err(ExtCopyError::NoSupportedFormat),
                Some(f) => {
                    let shape = BufferShape { width: c.width, height: c.height, format: f };
                    Ok(FramePlan { shape, allocate: buffer != Some(shape) })
                },
            }
        }),
{
    if c.stopped {
        return Err(ExtCopyError::SessionStopped);
    }
    if c.width == 0 || c.height == 0 {
        return Err(ExtCopyError::ZeroSized);
    }
    let format = match pick_format(c.shm_formats.as_slice()) {
        None => return Err(ExtCopyError::NoSupportedFormat),
        Some(f) => f,
    };
    let allocate = match buffer {
        None => true,
        Some(b) => b.width != c.width || b.height != c.height || b.format != format,
    };
    Ok(FramePlan { shape: BufferShape { width: c.width, height: c.height, format }, allocate })
}

/// The row length and size in bytes of a buffer.
pub fn buffer_size(width: u32, height: u32) -> (r: Result<(u32, u64), ExtCopyError>)
    ensures
        width * 4 > u32::MAX ==> r == Err::<(u32, u64), ExtCopyError>(ExtCopyError::Overflow),
        width * 4 <= u32::MAX ==> (r matches Ok(s) && s.0 == width * 4 && s.1 == width * 4
            * height),
{
    if width > u32::MAX / 4 {
        return Err(ExtCopyError::Overflow);
    }
    let stride: u32 = width * 4;
    Ok((stride, frame::area(stride, height)))
}

/// What the compositor said of a frame.
#[derive(Clone, Copy, PartialEq, Eq, Structural, Debug)]
pub enum FrameStatus {
    Ready,
    FailedConstraints,
    FailedStopped,
    FailedOther,
}

/// What becomes of a frame.
pub fn frame_outcome(s: FrameStatus) -> (r: Result<(), ExtCopyError>)
    ensures
        r == (match s {
            FrameStatus::Ready => Ok::<(), ExtCopyError>(()),
            FrameStatus::FailedConstraints => Err(ExtCopyError::ConstraintsChanged),
            FrameStatus::FailedStopped => Err(ExtCopyError::StoppedMidFrame),
            FrameStatus::FailedOther => Err(ExtCopyError::CaptureFailed),
        }),
{
    match s {
        FrameStatus::Ready => Ok(()),
        FrameStatus::FailedConstraints => Err(ExtCopyError::ConstraintsChanged),
        FrameStatus::FailedStopped => Err(ExtCopyError::StoppedMidFrame),
        FrameStatus::FailedOther => Err(ExtCopyError::CaptureFailed),
    }
}

/// Whether the session is rebuilt and asked once more: only after the first
/// try, and only where a clean session may do better.
pub fn rebuild_once(first_try: bool, e: ExtCopyError) -> (r: bool)
    ensures
        r == (first_try && e.spec_retryable()),
{
    first_try && e.retryable()
}

/// How a format is read: the order of its bytes, and whether it has no alpha.
pub open spec fn reading(f: ShmFormat) -> Option<(ByteOrder, bool)> {
    match f {
        ShmFormat::Argb8888 => Some((ByteOrder::Bgra, false)),
        ShmFormat::Xrgb8888 => Some((ByteOrder::Bgra, true)),
        ShmFormat::Abgr8888 => Some((ByteOrder::Rgba, false)),
        ShmFormat::Xbgr8888 => Some((ByteOrder::Rgba, true)),
        ShmFormat::Other(_) => None,
    }
}

/// The frame in a densely packed buffer.
pub fn read_buffer(raw: &[u8], shape: BufferShape) -> (r: Result<RgbaImage, ExtCopyError>)
    requires
        raw@.len() == shape.width * shape.height * 4,
        shape.width * 4 <= usize::MAX,
    ensures
        match reading(shape.format) {
            None => r == Err::<RgbaImage, ExtCopyError>(ExtCopyError::UnhandledFormat),
            Some(how) => r matches Ok(img) && frame::shows_rows(
                img,
                raw@,
                shape.width,
                shape.height,
                (shape.width * 4) as usize,
                how.0,
                how.1,
            ),
        },
        shape.format == ShmFormat::Argb8888 || shape.format == ShmFormat::Xrgb8888 ==> (r matches Ok(
            img,
        ) && forall|x: int, y: int|
            #![trigger img.px(x, y)]
            img.inside(x, y) ==> img.px(x, y).b == raw@[(y * shape.width + x) * 4] && img.px(x, y).g
                == raw@[(y * shape.width + x) * 4 + 1] && img.px(x, y).r == raw@[(y * shape.width
                + x) * 4 + 2]),
        shape.format == ShmFormat::Abgr8888 || shape.format == ShmFormat::Xbgr8888 ==> (r matches Ok(
            img,
        ) && forall|x: int, y: int|
            #![trigger img.px(x, y)]
            img.inside(x, y) ==> img.px(x, y).r == raw@[(y * shape.width + x) * 4] && img.px(x, y).g
                == raw@[(y * shape.width + x) * 4 + 1] && img.px(x, y).b == raw@[(y * shape.width
                + x) * 4 + 2]),
        shape.format == ShmFormat::Argb8888 || shape.format == ShmFormat::Abgr8888 ==> (r matches Ok(
            img,
        ) && forall|x: int, y: int|
            #![trigger img.px(x, y)]
            img.inside(x, y) ==> img.px(x, y).a == raw@[(y * shape.width + x) * 4 + 3]),
        shape.format == ShmFormat::Xrgb8888 || shape.format == ShmFormat::Xbgr8888 ==> (r matches Ok(
            img,
        ) && forall|x: int, y: int|
            #![trigger img.px(x, y)]
            img.inside(x, y) ==> img.px(x, y).a == 255),
{
    let (order, opaque) = match shape.format {
        ShmFormat::Argb8888 => (ByteOrder::Bgra, false),
        ShmFormat::Xrgb8888 => (ByteOrder::Bgra, true),
        ShmFormat::Abgr8888 => (ByteOrder::Rgba, false),
        ShmFormat::Xbgr8888 => (ByteOrder::Rgba, true),
        ShmFormat::Other(_) => return Err(ExtCopyError::UnhandledFormat),
    };
    let stride: usize = shape.width as usize * 4;
    let len: usize = raw.len();
    proof {
        if shape.height > 0 {
            assert((shape.height - 1) * stride + stride == shape.width * shape.height * 4)
                by (nonlinear_arith)
                requires
                    stride == shape.width * 4,
            ;
        }
    }
    let img = image_from_rows(raw, shape.width, shape.height, stride, order, opaque);
    proof {
        assert forall|x: int, y: int|
            #![trigger img.px(x, y)]
            img.inside(x, y) implies img.px(x, y) == frame::raw_px(
            raw@,
            (y * shape.width + x) * 4,
            order,
            opaque,
        ) by {
            assert(y * (shape.width * 4) + x * 4 == (y * shape.width + x) * 4) by (nonlinear_arith);
        }
    }
    Ok(img)
}

/// Every format that is picked can be read.
pub proof fn lemma_picked_formats_are_readable(offered: Seq<ShmFormat>)
    ensures
        preferred(offered) matches Some(f) ==> reading(f) is Some && offered.contains(f),
{
}

proof fn lemma_bytes_of_word(a: u8, b: u8, c: u8, d: u8, word: u32)
    requires
        word == a + 0x100 * b + 0x1_0000 * c + 0x100_0000 * d,
    ensures
        word % 0x100 == a,
        word / 0x100 % 0x100 == b,
        word / 0x1_0000 % 0x100 == c,
        word / 0x100_0000 == d,
{
    let w = word as int;
    let upper = c + 0x100 * d;
    let rest = b + 0x100 * upper;
    vstd::arithmetic::div_mod::lemma_fundamental_div_mod_converse(w, 0x100, rest, a as int);
    vstd::arithmetic::div_mod::lemma_fundamental_div_mod_converse(rest, 0x100, upper, b as int);
    vstd::arithmetic::div_mod::lemma_fundamental_div_mod_converse(
        w,
        0x1_0000,
        upper,
        a + 0x100 * b,
    );
    vstd::arithmetic::div_mod::lemma_fundamental_div_mod_converse(upper, 0x100, d as int, c as int);
    vstd::arithmetic::div_mod::lemma_fundamental_div_mod_converse(
        w,
        0x100_0000,
        d as int,
        a + 0x100 * b + 0x1_0000 * c,
    );
}

/// Every pixel of a buffer has the colours of its little-endian word. In
/// `Argb8888` and `Xrgb8888` red is in bits 16 to 23, green in bits 8 to 15 and
/// blue in bits 0 to 7; in `Abgr8888` and `Xbgr8888` red and blue are the other
/// way round. Alpha is in bits 24 to 31 of the formats that have it; the others
/// are opaque.
#[verifier::spinoff_prover]
#[verifier::rlimit(50)]
pub proof fn lemma_words_are_read(
    raw: &[u8],
    shape: BufferShape,
    r: Result<RgbaImage, ExtCopyError>,
    x: int,
    y: int,
    word: u32,
)
    requires
        call_ensures(read_buffer, (raw, shape), r),
        shape.width * 4 <= usize::MAX,
        0 <= x < shape.width,
        0 <= y < shape.height,
        ({
            let o = (y * shape.width + x) * 4;
            word == raw@[o] + 0x100 * raw@[o + 1] + 0x1_0000 * raw@[o + 2] + 0x100_0000 * raw@[o
                + 3]
        }),
    ensures
        !(shape.format is Other) ==> (r matches Ok(img) && img.spec_width() == shape.width
            && img.spec_height() == shape.height && {
            let p = img.pixels()[y * shape.width + x];
            let low = word % 0x100;
            let third = word / 0x1_0000 % 0x100;
            &&& p.g == word / 0x100 % 0x100
            &&& shape.format == ShmFormat::Argb8888 || shape.format == ShmFormat::Xrgb8888 ==> p.r
                == third && p.b == low
            &&& shape.format == ShmFormat::Abgr8888 || shape.format == ShmFormat::Xbgr8888 ==> p.r
                == low && p.b == third
            &&& shape.format == ShmFormat::Argb8888 || shape.format == ShmFormat::Abgr8888 ==> p.a
                == word / 0x100_0000
            &&& shape.format == ShmFormat::Xrgb8888 || shape.format == ShmFormat::Xbgr8888 ==> p.a
                == 255
        }),
        shape.format is Other ==> r is Err,
{
    let o = (y * shape.width + x) * 4;
    assert(y * (shape.width * 4) + x * 4 == (y * shape.width + x) * 4) by (nonlinear_arith);
    lemma_bytes_of_word(raw@[o], raw@[o + 1], raw@[o + 2], raw@[o + 3], word);
    if !(shape.format is Other) {
        assert(r->Ok_0.inside(x, y));
        let p = r->Ok_0.px(x, y);
    }
}

/// The same buffer in two formats that differ in the order of red and blue alone
/// gives two pictures that differ in that alone.
pub proof fn lemma_red_and_blue_change_places(
    raw: &[u8],
    a: BufferShape,
    b: BufferShape,
    first: Result<RgbaImage, ExtCopyError>,
    second: Result<RgbaImage, ExtCopyError>,
    x: int,
    y: int,
)
    requires
        call_ensures(read_buffer, (raw, a), first),
        call_ensures(read_buffer, (raw, b), second),
        a.width == b.width,
        a.height == b.height,
        a.width * 4 <= usize::MAX,
        0 <= x < a.width,
        0 <= y < a.height,
        a.format == ShmFormat::Argb8888 && b.format == ShmFormat::Abgr8888 || a.format
            == ShmFormat::Xrgb8888 && b.format == ShmFormat::Xbgr8888,
    ensures
        first matches Ok(p) && second matches Ok(q) && p.px(x, y).r == q.px(x, y).b && p.px(
            x,
            y,
        ).b == q.px(x, y).r && p.px(x, y).g == q.px(x, y).g && p.px(x, y).a == q.px(x, y).a,
{
    assert(first->Ok_0.inside(x, y));
    assert(second->Ok_0.inside(x, y));
}

/// A format is picked exactly where one of the four that can be read is offered,
/// and it is one that was offered. One that begins with blue in memory is picked
/// before one that begins with red, and of two alike the one with alpha.
pub proof fn lemma_best_format_is_picked(offered: &[ShmFormat], r: Option<ShmFormat>)
    requires
        call_ensures(pick_format, (offered,), r),
    ensures
        r matches Some(f) ==> offered@.contains(f) && !(f is Other),
        r is None ==> forall|k: int| 0 <= k < offered@.len() ==> (#[trigger] offered@[k]) is Other,
        offered@.contains(ShmFormat::Argb8888) ==> r == Some(ShmFormat::Argb8888),
        r == Some(ShmFormat::Abgr8888) || r == Some(ShmFormat::Xbgr8888) ==> !offered@.contains(
            ShmFormat::Argb8888,
        ) && !offered@.contains(ShmFormat::Xrgb8888),
        r == Some(ShmFormat::Xbgr8888) ==> !offered@.contains(ShmFormat::Abgr8888),
        r == Some(ShmFormat::Xrgb8888) ==> !offered@.contains(ShmFormat::Argb8888),
{
    if r is None {
        assert forall|k: int| 0 <= k < offered@.len() implies (#[trigger] offered@[k]) is Other by {
            assert(offered@.contains(offered@[k]));
        }
    }
}

/// A frame is planned exactly for a session that runs, has a size and offers a
/// readable format; its buffer is that of the session, and a new one is made
/// exactly where the one that is there is of another size or format.
pub proof fn lemma_planned_buffer_fits(
    c: &SessionConstraints,
    buffer: Option<BufferShape>,
    r: Result<FramePlan, ExtCopyError>,
)
    requires
        call_ensures(plan_frame, (c, buffer), r),
    ensures
        r is Ok ==> !c.stopped && c.width > 0 && c.height > 0,
        r matches Ok(p) ==> p.shape.width == c.width && p.shape.height == c.height
            && c.shm_formats@.contains(p.shape.format) && !(p.shape.format is Other),
        r matches Ok(p) ==> p.allocate == !(buffer matches Some(b) && b.width == c.width && b.height
            == c.height && b.format == p.shape.format),
        c.stopped ==> (r matches Err(e) && e == ExtCopyError::SessionStopped),
        !c.stopped && (c.width == 0 || c.height == 0) ==> (r matches Err(e) && e
            == ExtCopyError::ZeroSized),
        r matches Err(ExtCopyError::NoSupportedFormat) ==> !c.shm_formats@.contains(
            ShmFormat::Argb8888,
        ) && !c.shm_formats@.contains(ShmFormat::Xrgb8888) && !c.shm_formats@.contains(
            ShmFormat::Abgr8888,
        ) && !c.shm_formats@.contains(ShmFormat::Xbgr8888),
{
}

/// A session is asked once more exactly where it was stopped or its buffer no
/// longer fits, and never after the second try.
pub proof fn lemma_clean_session_is_tried_once(
    status: FrameStatus,
    e: ExtCopyError,
    first_try: bool,
    again: bool,
)
    requires
        call_ensures(frame_outcome, (status,), Err(e)),
        call_ensures(rebuild_once, (first_try, e), again),
    ensures
        status != FrameStatus::Ready,
        again == (first_try && status != FrameStatus::FailedOther),
{
}

/// A live session serves only while it runs and paints the pointer as asked.
pub proof fn lemma_reused_session_paints_as_asked(paints: bool, stopped: Option<bool>, asked: bool)
    ensures
        call_ensures(can_reuse, (paints, stopped, asked), true) ==> paints == asked && stopped
            == Some(false),
        call_ensures(can_reuse, (paints, stopped, asked), false) ==> paints != asked || stopped
            != Some(false),
{
}

} // verus!
