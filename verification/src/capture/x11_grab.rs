//! Grabs of a rectangle of the X11 root window.

use vstd::prelude::*;

use crate::capture::frame;
use crate::capture::frame::{image_from_rows, ByteOrder, RgbaImage};
use crate::text;

verus! {

/// The rectangle that is asked of the server.
#[derive(Clone, Copy, PartialEq, Eq, Structural, Debug)]
pub struct RootRect {
    pub x: i32,
    pub y: i32,
    pub width: u16,
    pub height: u16,
}

/// A coordinate moved to the nearest one on a side of `len` pixels.
pub open spec fn on_side(at: int, len: int) -> int {
    if at < 0 {
        0
    } else if at >= len {
        len - 1
    } else {
        at
    }
}

/// What is left of a wanted length from `at` on, and at least one pixel.
pub open spec fn left_of(want: int, at: int, len: int) -> int {
    let w = if want <= len - at {
        want
    } else {
        len - at
    };
    if w >= 1 {
        w
    } else {
        1
    }
}

/// The wanted rectangle, moved and cut so that it lies on a root window of the
/// given size.
pub fn clamp_to_root(x: i32, y: i32, width: u32, height: u32, root_w: u16, root_h: u16) -> (r:
    RootRect)
    requires
        root_w > 0,
        root_h > 0,
    ensures
        r.x == on_side(x as int, root_w as int),
        r.y == on_side(y as int, root_h as int),
        r.width == left_of(width as int, r.x as int, root_w as int),
        r.height == left_of(height as int, r.y as int, root_h as int),
{
    let x0: i32 = if x < 0 { 0 } else if x >= root_w as i32 { root_w as i32 - 1 } else { x };
    let y0: i32 = if y < 0 { 0 } else if y >= root_h as i32 { root_h as i32 - 1 } else { y };
    let left: u32 = (root_w as i32 - x0) as u32;
    let below: u32 = (root_h as i32 - y0) as u32;
    let w: u32 = if width <= left { width } else { left };
    let h: u32 = if height <= below { height } else { below };
    RootRect {
        x: x0,
        y: y0,
        width: if w >= 1 { w as u16 } else { 1 },
        height: if h >= 1 { h as u16 } else { 1 },
    }
}

/// Every pixel of the rectangle that is asked for lies on the root window.
pub proof fn lemma_clamped_lies_on_root(x: int, want: int, len: int)
    requires
        len > 0,
        want >= 0,
    ensures
        0 <= on_side(x, len),
        on_side(x, len) + left_of(want, on_side(x, len), len) <= len,
        left_of(want, on_side(x, len), len) >= 1,
{
}

/// Why a reply cannot be used.
#[derive(Clone, Copy, PartialEq, Eq, Structural, Debug)]
pub enum X11Error {
    UnsupportedDepth(u8),
    ShortReply { got: usize, expected: usize },
}

impl X11Error {
    pub open spec fn spec_message(self) -> Seq<char> {
        match self {
            X11Error::UnsupportedDepth(depth) => "unsupported root depth "@ + text::dec(
                depth as nat,
            ),
            X11Error::ShortReply { got, expected } => "short GetImage reply: "@ + text::dec(
                got as nat,
            ) + " < "@ + text::dec(expected as nat),
        }
    }

    /// The error in words.
    pub fn message(&self) -> (s: String)
        ensures
            s@ == self.spec_message(),
    {
        match self {
            X11Error::UnsupportedDepth(depth) => {
                let mut s = "unsupported root depth ".to_owned();
                text::push_dec(&mut s, *depth as u64);
                s
            },
            X11Error::ShortReply { got, expected } => {
                let mut s = "short GetImage reply: ".to_owned();
                text::push_dec(&mut s, *got as u64);
                s.append(" < ");
                text::push_dec(&mut s, *expected as u64);
                s
            },
        }
    }
}

/// The opaque frame in the server's reply.
pub fn decode_reply(data: &[u8], depth: u8, width: u16, height: u16) -> (r: Result<
    RgbaImage,
    X11Error,
>)
    ensures
        depth != 24 && depth != 32 ==> r == Err::<RgbaImage, X11Error>(
            X11Error::UnsupportedDepth(depth),
        ),
        (depth == 24 || depth == 32) && data@.len() < width * height * 4 ==> r == Err::<
            RgbaImage,
            X11Error,
        >(
            X11Error::ShortReply {
                got: data@.len() as usize,
                expected: (width * height * 4) as usize,
            },
        ),
        (depth == 24 || depth == 32) && data@.len() >= width * height * 4 ==> (r matches Ok(img)
            && frame::shows_rows(
            img,
            data@,
            width as u32,
            height as u32,
            (width * 4) as usize,
            ByteOrder::Bgra,
            true,
        )),
{
    if depth != 24 && depth != 32 {
        return Err(X11Error::UnsupportedDepth(depth));
    }
    assert(0 <= width * height * 4 <= 65535 * 65535 * 4) by (nonlinear_arith)
        requires
            0 <= width <= 65535,
            0 <= height <= 65535,
    ;
    let expected: u64 = width as u64 * height as u64 * 4;
    if (data.len() as u64) < expected {
        return Err(X11Error::ShortReply { got: data.len(), expected: expected as usize });
    }
    let stride: usize = width as usize * 4;
    proof {
        if height > 0 {
            assert((height - 1) * stride + stride == width * height * 4) by (nonlinear_arith)
                requires
                    stride == width * 4,
            ;
        }
    }
    Ok(image_from_rows(data, width as u32, height as u32, stride, ByteOrder::Bgra, true))
}

/// The frame of a reply has the colours of its bytes, blue first, and is opaque,
/// whether or not the screen has alpha.
pub proof fn lemma_replies_begin_with_blue(
    data: &[u8],
    depth: u8,
    width: u16,
    height: u16,
    r: Result<RgbaImage, X11Error>,
    x: int,
    y: int,
)
    requires
        call_ensures(decode_reply, (data, depth, width, height), r),
        depth == 24 || depth == 32,
        data@.len() >= width * height * 4,
        0 <= x < width,
        0 <= y < height,
    ensures
        r matches Ok(img) && img.spec_width() == width && img.spec_height() == height && {
            let p = img.pixels()[y * width + x];
            let o = (y * width + x) * 4;
            &&& p.b == data@[o]
            &&& p.g == data@[o + 1]
            &&& p.r == data@[o + 2]
            &&& p.a == 255
        },
{
    assert(y * (width * 4) + x * 4 == (y * width + x) * 4) by (nonlinear_arith);
    assert(r->Ok_0.inside(x, y));
    let p = r->Ok_0.px(x, y);
}

} // verus!
