//! Frames of a screencast: checked, unpacked and cropped.

use vstd::prelude::*;

use crate::capture::frame;
use crate::capture::frame::{crop, image_from_rows, ByteOrder, RgbaImage};
use crate::capture::region::{side_len, Crop};

verus! {

/// The source of a screencast: its node, and where it lies on the desktop.
#[derive(Clone, Copy, Debug)]
pub struct StreamInfo {
    pub node_id: u32,
    pub position: (i32, i32),
    pub size: (i32, i32),
}

/// One 10-bit frame of a screencast, packed.
#[derive(Debug)]
pub struct Hdr10Frame {
    pub data: Vec<u8>,
    pub width: u32,
    pub height: u32,
    pub position: (i32, i32),
    pub logical_size: (i32, i32),
}

/// The pixel formats of a screencast.
#[derive(Clone, Copy, PartialEq, Eq, Structural, Debug)]
pub enum VideoFormat {
    Rgba,
    Rgbx,
    Bgra,
    Bgrx,
    Xbgr210,
    Abgr210,
    Other,
}

/// The bytes between the starts of two rows: what the buffer says, or the
/// length of a row where it says nothing.
pub open spec fn row_step(stride: i32, width: u32) -> int {
    if stride == 0 {
        width * 4
    } else if stride < 0 {
        -stride
    } else {
        stride as int
    }
}

/// The order of the bytes of a plain format.
pub open spec fn plain_order(format: VideoFormat) -> Option<ByteOrder> {
    match format {
        VideoFormat::Rgba | VideoFormat::Rgbx => Some(ByteOrder::Rgba),
        VideoFormat::Bgra | VideoFormat::Bgrx => Some(ByteOrder::Bgra),
        _ => None,
    }
}

/// The format carries no alpha.
pub open spec fn no_alpha(format: VideoFormat) -> bool {
    format == VideoFormat::Rgbx || format == VideoFormat::Bgrx || format == VideoFormat::Xbgr210
}

/// The buffer holds every row of the frame.
pub open spec fn rows_there(len: nat, stride: i32, width: u32, height: u32) -> bool {
    &&& width > 0
    &&& height > 0
    &&& len >= row_step(stride, width) * (height - 1) + width * 4
}

fn step_of(stride: i32, width: u32) -> (s: u64)
    ensures
        s == row_step(stride, width),
{
    if stride == 0 {
        width as u64 * 4
    } else if stride < 0 {
        (-(stride as i64)) as u64
    } else {
        stride as u64
    }
}

fn rows_are_there(len: usize, stride: i32, width: u32, height: u32) -> (r: bool)
    ensures
        r == rows_there(len as nat, stride, width, height),
{
    if width == 0 || height == 0 {
        return false;
    }
    let step: u64 = step_of(stride, width);
    assert(0 <= step * (height - 1) <= 0x4_0000_0000 * 0xffff_ffff) by (nonlinear_arith)
        requires
            0 <= step <= 0x4_0000_0000,
            0 <= height - 1 <= 0xffff_ffff,
    ;
    let need: u128 = step as u128 * (height - 1) as u128 + width as u128 * 4;
    len as u128 >= need
}

/// The frame in a screencast buffer, or nothing where the buffer is too short,
/// the frame is empty or its format is not a plain one. Formats without alpha
/// come out opaque.
pub fn convert_frame(raw: &[u8], stride: i32, width: u32, height: u32, format: VideoFormat) -> (r:
    Option<RgbaImage>)
    requires
        width * height * 4 <= usize::MAX,
        row_step(stride, width) <= usize::MAX,
    ensures
        (r is Some) == (rows_there(raw@.len(), stride, width, height) && plain_order(
            format,
        ) is Some),
        r matches Some(img) ==> frame::shows_rows(
            img,
            raw@,
            width,
            height,
            row_step(stride, width) as usize,
            plain_order(format)->0,
            no_alpha(format),
        ),
{
    if !rows_are_there(raw.len(), stride, width, height) {
        return None;
    }
    let opaque = match format {
        VideoFormat::Rgbx => true,
        VideoFormat::Bgrx => true,
        _ => false,
    };
    let order = match format {
        VideoFormat::Rgba => ByteOrder::Rgba,
        VideoFormat::Rgbx => ByteOrder::Rgba,
        VideoFormat::Bgra => ByteOrder::Bgra,
        VideoFormat::Bgrx => ByteOrder::Bgra,
        _ => return None,
    };
    let step: u64 = step_of(stride, width);
    proof {
        assert(step * (height - 1) == (height - 1) * step) by (nonlinear_arith);
    }
    Some(image_from_rows(raw, width, height, step as usize, order, opaque))
}

/// The packed words of a 10-bit frame without padding. Where the format has no
/// alpha, the two alpha bits of each word are set.
pub open spec fn packed_words(raw: Seq<u8>, step: int, width: int, height: int, opaque: bool)
    -> Seq<u8> {
    Seq::new(
        (width * 4 * height) as nat,
        |i: int|
            {
                let b = raw[(i / (width * 4)) * step + i % (width * 4)];
                if opaque && i % 4 == 3 {
                    b | 0xC0u8
                } else {
                    b
                }
            },
    )
}

/// The signal is PQ, or does not say what it is.
pub open spec fn pq_signal(transfer: u32) -> bool {
    transfer == 14 || transfer == 0
}

/// The packed pixels of a 10-bit screencast buffer, or nothing where the format
/// is not a 10-bit one, the signal is not PQ, or the buffer is too short.
pub fn pack_hdr10(
    raw: &[u8],
    stride: i32,
    width: u32,
    height: u32,
    format: VideoFormat,
    transfer: u32,
) -> (r: Option<Vec<u8>>)
    requires
        width * height * 4 <= usize::MAX,
        row_step(stride, width) <= usize::MAX,
    ensures
        (r is Some) == (rows_there(raw@.len(), stride, width, height) && pq_signal(transfer) && (
        format == VideoFormat::Xbgr210 || format == VideoFormat::Abgr210)),
        r matches Some(v) ==> v@ == packed_words(
            raw@,
            row_step(stride, width),
            width as int,
            height as int,
            no_alpha(format),
        ),
{
    let opaque = match format {
        VideoFormat::Xbgr210 => true,
        VideoFormat::Abgr210 => false,
        _ => return None,
    };
    if transfer != 14 && transfer != 0 {
        return None;
    }
    if !rows_are_there(raw.len(), stride, width, height) {
        return None;
    }
    let n: usize = raw.len();
    let step: usize = step_of(stride, width) as usize;
    proof {
        assert(width * 4 <= width * height * 4) by (nonlinear_arith)
            requires
                height > 0,
        ;
        assert(step * (height - 1) == (height - 1) * step) by (nonlinear_arith);
    }
    let row_bytes: usize = width as usize * 4;
    let mut out: Vec<u8> = Vec::new();
    let mut y: u32 = 0;
    let mut row: usize = 0;
    let ghost all = packed_words(raw@, step as int, width as int, height as int, opaque);
    while y < height
        invariant
            n == raw@.len(),
            row_bytes == width * 4,
            row_bytes > 0,
            n >= (height - 1) * step + row_bytes,
            y <= height,
            y < height ==> row == y * step,
            out@.len() == y * row_bytes,
            all == packed_words(raw@, step as int, width as int, height as int, opaque),
            forall|i: int|
                0 <= i < out@.len() ==> #[trigger] out@[i] == ({
                    let b = raw@[(i / (row_bytes as int)) * step + i % (row_bytes as int)];
                    if opaque && i % 4 == 3 {
                        b | 0xC0u8
                    } else {
                        b
                    }
                }),
        decreases height - y,
    {
        proof {
            assert(y * step <= (height - 1) * step) by (nonlinear_arith)
                requires
                    0 <= y <= height - 1,
                    0 <= step,
            ;
        }
        let mut x: usize = 0;
        while x < row_bytes
            invariant
                n == raw@.len(),
                row_bytes == width * 4,
                row_bytes > 0,
                y < height,
                x <= row_bytes,
                row == y * step,
                row + row_bytes <= n,
                out@.len() == y * row_bytes + x,
                forall|i: int|
                    0 <= i < out@.len() ==> #[trigger] out@[i] == ({
                        let b = raw@[(i / (row_bytes as int)) * step + i % (row_bytes as int)];
                        if opaque && i % 4 == 3 {
                            b | 0xC0u8
                        } else {
                            b
                        }
                    }),
            decreases row_bytes - x,
        {
            let b: u8 = raw[row + x];
            proof {
                let i = y * row_bytes + x;
                vstd::arithmetic::div_mod::lemma_fundamental_div_mod_converse(
                    i,
                    row_bytes as int,
                    y as int,
                    x as int,
                );
                assert(y * row_bytes == 4 * (y * width)) by (nonlinear_arith)
                    requires
                        row_bytes == width * 4,
                ;
                assert(i % 4 == x % 4);
            }
            if opaque && x % 4 == 3 {
                out.push(b | 0xC0u8);
            } else {
                out.push(b);
            }
            x = x + 1;
        }
        y = y + 1;
        proof {
            assert(y * row_bytes == (y - 1) * row_bytes + row_bytes) by (nonlinear_arith);
            assert(y * step == (y - 1) * step + step) by (nonlinear_arith);
            if y < height {
                assert(y * step <= (height - 1) * step) by (nonlinear_arith)
                    requires
                        0 <= y <= height - 1,
                        0 <= step,
                ;
            }
        }
        if y < height {
            row = row + step;
        }
    }
    proof {
        assert(height * row_bytes == row_bytes * height) by (nonlinear_arith);
        assert(out@ =~= all);
    }
    Some(out)
}

/// The formats that a screencast is asked for, the best first: packed ones for
/// an HDR still, plain ones for anything else.
pub open spec fn wanted_formats(hdr: bool) -> Seq<VideoFormat> {
    if hdr {
        seq![VideoFormat::Xbgr210, VideoFormat::Abgr210]
    } else {
        seq![VideoFormat::Rgba, VideoFormat::Rgbx, VideoFormat::Bgrx, VideoFormat::Bgra]
    }
}

/// The formats that a screencast is asked for.
pub fn offered_formats(hdr: bool) -> (r: Vec<VideoFormat>)
    ensures
        r@ == wanted_formats(hdr),
{
    if hdr {
        vec![VideoFormat::Xbgr210, VideoFormat::Abgr210]
    } else {
        vec![VideoFormat::Rgba, VideoFormat::Rgbx, VideoFormat::Bgrx, VideoFormat::Bgra]
    }
}

/// Whatever format of those that were asked for a screencast settles on, its
/// frames can be read: the plain ones as pixels, the others as packed words.
pub proof fn lemma_wanted_frames_are_readable(hdr: bool, i: int)
    requires
        0 <= i < wanted_formats(hdr).len(),
    ensures
        hdr ==> wanted_formats(hdr)[i] == VideoFormat::Xbgr210 || wanted_formats(hdr)[i]
            == VideoFormat::Abgr210,
        !hdr ==> plain_order(wanted_formats(hdr)[i]) is Some,
{
}

// ---- waiting for frames and cutting them ------------------------------------------------------

/// What to do while a frame is waited for.
#[derive(Clone, Copy, PartialEq, Eq, Structural, Debug)]
pub enum FrameWait {
    /// The frame in the slot is the one.
    Take,
    Wait,
    /// Nothing came in time.
    NoFrames,
}

/// A frame is taken when it is not the one that was taken last, or when the
/// wait is over; a static screen so gives its last frame again.
pub open spec fn waiting(current: Option<u64>, last_taken: Option<u64>, deadline_passed: bool)
    -> FrameWait {
    match current {
        Some(stamp) => if deadline_passed || last_taken != Some(stamp) {
            FrameWait::Take
        } else {
            FrameWait::Wait
        },
        None => if deadline_passed {
            FrameWait::NoFrames
        } else {
            FrameWait::Wait
        },
    }
}

/// What to do, by the frame that is there and the one that was taken last.
pub fn await_frame(current: Option<u64>, last_taken: Option<u64>, deadline_passed: bool) -> (r:
    FrameWait)
    ensures
        r == waiting(current, last_taken, deadline_passed),
{
    match current {
        Some(stamp) => {
            let fresh = match last_taken {
                Some(t) => t != stamp,
                None => true,
            };
            if deadline_passed || fresh {
                FrameWait::Take
            } else {
                FrameWait::Wait
            }
        },
        None => if deadline_passed {
            FrameWait::NoFrames
        } else {
            FrameWait::Wait
        },
    }
}

/// How long a frame may take, in milliseconds: the first longer than the rest.
pub fn frame_patience_ms(first: bool) -> (ms: u64)
    ensures
        ms == (if first { 5000u64 } else { 500u64 }),
{
    if first {
        5000
    } else {
        500
    }
}

/// Why a screencast gives no picture.
#[derive(Clone, Copy, PartialEq, Eq, Structural, Debug)]
pub enum StreamFault {
    /// The stream did not come about in time.
    NoSetup,
    NoFrames,
    /// The portal did not say how large the shared display is.
    NoGeometry,
    Outside,
}

impl StreamFault {
    /// The fault in words, of a stream for an HDR still or of any other.
    pub open spec fn spec_message(self, hdr: bool) -> Seq<char> {
        match self {
            StreamFault::NoSetup => if hdr {
                "hdr screencast produced no setup result in time"@
            } else {
                "pipewire stream produced no setup result in time"@
            },
            StreamFault::NoFrames => if hdr {
                "hdr screencast delivered no frames"@
            } else {
                "screencast delivered no frames"@
            },
            StreamFault::NoGeometry => "portal reported no stream geometry"@,
            StreamFault::Outside => "capture region lies outside the shared monitor"@,
        }
    }

    pub fn message(&self, hdr: bool) -> (s: &'static str)
        ensures
            s@ == self.spec_message(hdr),
    {
        match self {
            StreamFault::NoSetup => if hdr {
                "hdr screencast produced no setup result in time"
            } else {
                "pipewire stream produced no setup result in time"
            },
            StreamFault::NoFrames => if hdr {
                "hdr screencast delivered no frames"
            } else {
                "screencast delivered no frames"
            },
            StreamFault::NoGeometry => "portal reported no stream geometry",
            StreamFault::Outside => "capture region lies outside the shared monitor",
        }
    }
}

/// The part of a wanted rectangle that lies inside a frame.
pub open spec fn clipped(frame_w: u32, frame_h: u32, want: Crop) -> Option<Crop> {
    let w = side_len(want.width as int, want.x as int, frame_w as int);
    let h = side_len(want.height as int, want.y as int, frame_h as int);
    if w == 0 || h == 0 {
        None
    } else {
        Some(Crop { x: want.x, y: want.y, width: w as u32, height: h as u32 })
    }
}

/// Cuts the wanted rectangle out of a frame, or nothing where it lies outside.
fn cut_frame(img: &RgbaImage, want: Crop) -> (r: Option<RgbaImage>)
    requires
        img.wf(),
    ensures
        match clipped(img.spec_width(), img.spec_height(), want) {
            None => r is None,
            Some(c) => r matches Some(cut) && frame::shows_crop(
                cut,
                *img,
                c.x as int,
                c.y as int,
                c.width,
                c.height,
            ),
        },
{
    let left: u32 = if img.width() >= want.x { img.width() - want.x } else { 0 };
    let below: u32 = if img.height() >= want.y { img.height() - want.y } else { 0 };
    let w: u32 = if want.width <= left { want.width } else { left };
    let h: u32 = if want.height <= below { want.height } else { below };
    if w == 0 || h == 0 {
        return None;
    }
    Some(crop(img, want.x, want.y, w, h))
}

/// A screencast that frames are taken from. A frame is known by the stamp of
/// when it came.
#[derive(Clone, Copy, Debug)]
pub struct PipeWireFrameStream {
    pub stream: StreamInfo,
    /// The stamp of the frame that was taken last.
    pub last_consumed: Option<u64>,
}

impl PipeWireFrameStream {
    pub fn new(stream: StreamInfo) -> (r: Self)
        ensures
            r.stream == stream,
            r.last_consumed is None,
    {
        PipeWireFrameStream { stream, last_consumed: None }
    }

    /// How long the next frame may take, in milliseconds.
    pub fn patience_ms(&self) -> (ms: u64)
        ensures
            ms == (if self.last_consumed is None { 5000u64 } else { 500u64 }),
    {
        frame_patience_ms(self.last_consumed.is_none())
    }

    /// Looks at the slot that holds the latest frame. A frame that is taken is
    /// remembered.
    pub fn look(&mut self, current: Option<u64>, deadline_passed: bool) -> (r: FrameWait)
        ensures
            r == waiting(current, old(self).last_consumed, deadline_passed),
            final(self).stream == old(self).stream,
            final(self).last_consumed == (if r == FrameWait::Take { current } else { old(self).last_consumed }),
    {
        let r = await_frame(current, self.last_consumed, deadline_passed);
        match r {
            FrameWait::Take => {
                self.last_consumed = current;
            },
            _ => {},
        }
        r
    }

    /// How far right of and below the shared display's corner a point lies.
    pub open spec fn spec_offset(self, x: i32, y: i32) -> (int, int) {
        let (px, py) = self.stream.position;
        (
            if x > px {
                x - px
            } else {
                0
            },
            if y > py {
                y - py
            } else {
                0
            },
        )
    }

    /// How far right of and below the shared display's corner a point lies:
    /// nought where it lies before it.
    pub fn offset(&self, x: i32, y: i32) -> (r: (u32, u32))
        ensures
            r.0 == self.spec_offset(x, y).0,
            r.1 == self.spec_offset(x, y).1,
    {
        let (px, py) = self.stream.position;
        let right: u32 = if x > px {
            (x as i64 - px as i64) as u32
        } else {
            0
        };
        let below: u32 = if y > py {
            (y as i64 - py as i64) as u32
        } else {
            0
        };
        (right, below)
    }

    /// Cuts the wanted rectangle out of a frame. The rectangle is in the
    /// frame's own pixels.
    pub fn grab(&self, img: &RgbaImage, want: Crop) -> (r: Result<RgbaImage, StreamFault>)
        requires
            img.wf(),
        ensures
            ({
                let (w, h) = self.stream.size;
                if w <= 0 || h <= 0 {
                    r matches Err(f) && f == StreamFault::NoGeometry
                } else {
                    match clipped(img.spec_width(), img.spec_height(), want) {
                        None => r matches Err(f) && f == StreamFault::Outside,
                        Some(c) => r matches Ok(cut) && frame::shows_crop(
                            cut,
                            *img,
                            c.x as int,
                            c.y as int,
                            c.width,
                            c.height,
                        ),
                    }
                }
            }),
    {
        let (w, h) = self.stream.size;
        if w <= 0 || h <= 0 {
            return Err(StreamFault::NoGeometry);
        }
        match cut_frame(img, want) {
            Some(cut) => Ok(cut),
            None => Err(StreamFault::Outside),
        }
    }
}

/// A static screen gives its last frame again: once a frame was taken, the
/// stream never runs dry as long as the frame stays in the slot, and waits for
/// a fresh one no longer than it has patience.
pub proof fn lemma_static_screens_repeat(stamp: u64, last_taken: Option<u64>, deadline_passed: bool)
    ensures
        waiting(Some(stamp), last_taken, deadline_passed) != FrameWait::NoFrames,
        waiting(Some(stamp), last_taken, true) == FrameWait::Take,
        last_taken != Some(stamp) ==> waiting(Some(stamp), last_taken, deadline_passed)
            == FrameWait::Take,
{
}

// ---- laws --------------------------------------------------------------------------------------

/// A frame of a plain format has the colours of its bytes: red first in `Rgba`
/// and `Rgbx`, blue first in `Bgra` and `Bgrx`. The formats with an `x` are
/// opaque. Where the buffer says nothing of its rows they are dense.
pub proof fn lemma_plain_frames_keep_their_colours(
    raw: &[u8],
    stride: i32,
    width: u32,
    height: u32,
    format: VideoFormat,
    r: Option<RgbaImage>,
    x: int,
    y: int,
)
    requires
        call_ensures(convert_frame, (raw, stride, width, height, format), r),
        stride == 0 || stride >= width * 4,
        width * 4 <= usize::MAX,
        raw@.len() >= (if stride == 0 {
            width * 4
        } else {
            stride as int
        }) * (height - 1) + width * 4,
        0 <= x < width,
        0 <= y < height,
    ensures
        r is Some <==> format == VideoFormat::Rgba || format == VideoFormat::Rgbx || format
            == VideoFormat::Bgra || format == VideoFormat::Bgrx,
        r matches Some(img) ==> {
            let p = img.pixels()[y * width + x];
            let o = y * (if stride == 0 {
                width * 4
            } else {
                stride as int
            }) + x * 4;
            &&& img.spec_width() == width && img.spec_height() == height
            &&& p.g == raw@[o + 1]
            &&& format == VideoFormat::Rgba || format == VideoFormat::Rgbx ==> p.r == raw@[o]
                && p.b == raw@[o + 2]
            &&& format == VideoFormat::Bgra || format == VideoFormat::Bgrx ==> p.b == raw@[o]
                && p.r == raw@[o + 2]
            &&& format == VideoFormat::Rgba || format == VideoFormat::Bgra ==> p.a == raw@[o + 3]
            &&& format == VideoFormat::Rgbx || format == VideoFormat::Bgrx ==> p.a == 255
        },
{
    if r is Some {
        assert(r->0.inside(x, y));
        let p = r->0.px(x, y);
    }
}

/// The packed words of a frame are its words, row by row and without padding;
/// of a format without alpha the highest two bits are set and no other bit
/// changes.
pub proof fn lemma_packed_words_are_kept(
    raw: &[u8],
    stride: i32,
    width: u32,
    height: u32,
    format: VideoFormat,
    transfer: u32,
    r: Option<Vec<u8>>,
    x: int,
    y: int,
    c: int,
)
    requires
        call_ensures(pack_hdr10, (raw, stride, width, height, format, transfer), r),
        stride >= width * 4,
        raw@.len() >= stride * (height - 1) + width * 4,
        0 <= x < width,
        0 <= y < height,
        0 <= c < 4,
    ensures
        r is Some <==> (format == VideoFormat::Xbgr210 || format == VideoFormat::Abgr210) && (
        transfer == 14 || transfer == 0),
        r matches Some(v) ==> {
            let had = raw@[y * stride + x * 4 + c];
            let got = v@[(y * width + x) * 4 + c];
            &&& v@.len() == width * height * 4
            &&& c < 3 || format == VideoFormat::Abgr210 ==> got == had
            &&& c == 3 && format == VideoFormat::Xbgr210 ==> got / 64 == 3 && got % 64 == had % 64
        },
{
    if let Some(v) = r {
        let i = (y * width + x) * 4 + c;
        let row = width * 4;
        assert(i == y * row + (x * 4 + c)) by (nonlinear_arith)
            requires
                i == (y * width + x) * 4 + c,
                row == width * 4,
        ;
        vstd::arithmetic::div_mod::lemma_fundamental_div_mod_converse(i, row, y, x * 4 + c);
        assert(0 <= i < width * 4 * height) by {
            frame::lemma_at(width as int, height as int, x, y);
            assert(width * 4 * height == (width * height) * 4) by (nonlinear_arith);
        }
        assert(width * 4 * height == width * height * 4) by (nonlinear_arith);
        let had = raw@[y * stride + x * 4 + c];
        assert((had | 0xC0u8) / 64 == 3 && (had | 0xC0u8) % 64 == had % 64) by (bit_vector);
    }
}

/// A frame is taken exactly where there is one that was not taken before, or
/// where the wait is over and there is one at all; only a wait that is over
/// without any frame gives up.
pub proof fn lemma_new_frames_are_taken(
    current: Option<u64>,
    last_taken: Option<u64>,
    late: bool,
    r: FrameWait,
)
    requires
        call_ensures(await_frame, (current, last_taken, late), r),
    ensures
        r == FrameWait::Take <==> current is Some && (late || current != last_taken),
        r == FrameWait::NoFrames <==> current is None && late,
{
}

} // verus!
