//! The pointer, painted into captures at the place where it was.

use vstd::prelude::*;

use crate::capture::frame::{image_from_rows, ByteOrder, Rgba, RgbaImage};
use crate::capture::frame;

verus! {

/// The largest side of a pointer's bitmap: anything larger is not painted.
pub const MAX_CURSOR_SIDE: u32 = 256;

/// A snapshot of the pointer: its bitmap, and the desktop's point under the
/// bitmap's top left pixel.
#[derive(Debug)]
pub struct CursorShot {
    image: RgbaImage,
    screen_x: i32,
    screen_y: i32,
}

impl CursorShot {
    pub closed spec fn spec_image(&self) -> RgbaImage {
        self.image
    }

    pub closed spec fn spec_pos(&self) -> (i32, i32) {
        (self.screen_x, self.screen_y)
    }

    pub open spec fn wf(&self) -> bool {
        self.spec_image().wf()
    }

    /// The desktop's point under the bitmap's top left pixel.
    pub fn screen_pos(&self) -> (p: (i32, i32))
        ensures
            p == self.spec_pos(),
    {
        (self.screen_x, self.screen_y)
    }

    /// A pointer whose `hotspot` pixel is on the desktop's point `pointer`.
    pub fn at(image: RgbaImage, pointer: (i32, i32), hotspot: (u32, u32)) -> (r: Self)
        requires
            image.wf(),
            pointer.0 - hotspot.0 >= i32::MIN,
            pointer.1 - hotspot.1 >= i32::MIN,
        ensures
            r.wf(),
            r.spec_image() == image,
            r.spec_pos().0 == pointer.0 - hotspot.0,
            r.spec_pos().1 == pointer.1 - hotspot.1,
    {
        CursorShot {
            image,
            screen_x: (pointer.0 as i64 - hotspot.0 as i64) as i32,
            screen_y: (pointer.1 as i64 - hotspot.1 as i64) as i32,
        }
    }
}

/// The size of a pointer whose bitmap has the given sides. A pointer without
/// a colour bitmap has two masks, one above the other, in a bitmap of double
/// height. A negative height only says that the rows run from the top.
pub open spec fn cursor_sides(bitmap_width: i32, bitmap_height: i32, has_color: bool) -> Option<
    (u32, u32),
> {
    let rows = if bitmap_height < 0 {
        -bitmap_height
    } else {
        bitmap_height as int
    };
    let h = if has_color {
        rows
    } else {
        rows / 2
    };
    if 0 < bitmap_width <= MAX_CURSOR_SIDE && 0 < h <= MAX_CURSOR_SIDE {
        Some((bitmap_width as u32, h as u32))
    } else {
        None
    }
}

/// The size of a pointer whose bitmap has the given sides, or `None` where it
/// is empty or larger than a pointer can be.
pub fn cursor_size(bitmap_width: i32, bitmap_height: i32, has_color: bool) -> (r: Option<
    (u32, u32),
>)
    ensures
        r == cursor_sides(bitmap_width, bitmap_height, has_color),
{
    if bitmap_width <= 0 || bitmap_height == 0 {
        return None;
    }
    let rows: u32 = if bitmap_height < 0 {
        (-(bitmap_height as i64)) as u32
    } else {
        bitmap_height as u32
    };
    let h: u32 = if has_color { rows } else { rows / 2 };
    let w: u32 = bitmap_width as u32;
    if w == 0 || h == 0 || w > MAX_CURSOR_SIDE || h > MAX_CURSOR_SIDE {
        return None;
    }
    Some((w, h))
}

/// A pixel of a pointer that was drawn without alpha: it is opaque where it
/// has colour.
pub open spec fn recovered(p: Rgba) -> Rgba {
    if p.is_black() {
        p
    } else {
        Rgba { r: p.r, g: p.g, b: p.b, a: 255 }
    }
}

/// The pixel of a drawn pointer whose four bytes begin at `o`.
pub open spec fn drawn_px(raw: Seq<u8>, o: int, any_alpha: bool) -> Rgba {
    let p = frame::raw_px(raw, o, ByteOrder::Bgra, false);
    if any_alpha {
        p
    } else {
        recovered(p)
    }
}

/// Some pixel of the drawn pointer has alpha.
pub open spec fn drawn_alpha(raw: Seq<u8>, width: u32, height: u32) -> bool {
    exists|k: int|
        #![trigger frame::pixel_of(raw, k)]
        0 <= k < width * height && frame::pixel_of(raw, k).a != 0
}

/// The pointer as it was drawn, in packed BGRA pixels. A pointer drawn without
/// any alpha is given it where it has colour.
pub fn cursor_image(raw: &[u8], width: u32, height: u32) -> (img: RgbaImage)
    requires
        raw@.len() == width * height * 4,
    ensures
        img.wf(),
        img.spec_width() == width,
        img.spec_height() == height,
        forall|x: int, y: int|
            #![trigger img.px(x, y)]
            img.inside(x, y) ==> img.px(x, y) == drawn_px(
                raw@,
                (y * width + x) * 4,
                drawn_alpha(raw@, width, height),
            ),
{
    let n: usize = raw.len();
    proof {
        if height > 0 {
            assert((height - 1) * (width * 4) + width * 4 == width * height * 4)
                by (nonlinear_arith)
                requires
                    height > 0,
            ;
            assert(width * 4 <= width * height * 4) by (nonlinear_arith)
                requires
                    height > 0,
            ;
        }
    }
    if height == 0 || width == 0 {
        let img = RgbaImage::from_pixels(width, height, Vec::new());
        proof {
            assert(width * height == 0) by (nonlinear_arith)
                requires
                    width == 0 || height == 0,
            ;
        }
        return img.unwrap();
    }
    let stride: usize = width as usize * 4;
    let mut img = image_from_rows(raw, width, height, stride, ByteOrder::Bgra, false);
    let any = img.any_alpha();
    proof {
        lemma_drawn_alpha(raw@, img, width, height, stride);
        assert forall|x: int, y: int|
            #![trigger img.px(x, y)]
            img.inside(x, y) implies img.px(x, y) == frame::raw_px(
            raw@,
            (y * width + x) * 4,
            ByteOrder::Bgra,
            false,
        ) by {
            assert(y * stride + x * 4 == (y * width + x) * 4) by (nonlinear_arith)
                requires
                    stride == width * 4,
            ;
        }
    }
    if any {
        return img;
    }
    let ghost first = img;
    let mut y: u32 = 0;
    while y < height
        invariant
            y <= height,
            img.wf(),
            first.wf(),
            img.spec_width() == width,
            img.spec_height() == height,
            first.spec_width() == width,
            first.spec_height() == height,
            forall|i: int, j: int|
                #![trigger img.px(i, j)]
                img.inside(i, j) ==> img.px(i, j) == (if j < y {
                    recovered(first.px(i, j))
                } else {
                    first.px(i, j)
                }),
        decreases height - y,
    {
        let mut x: u32 = 0;
        while x < width
            invariant
                y < height,
                x <= width,
                img.wf(),
                first.wf(),
                img.spec_width() == width,
                img.spec_height() == height,
                first.spec_width() == width,
                first.spec_height() == height,
                forall|i: int, j: int|
                    #![trigger img.px(i, j)]
                    img.inside(i, j) ==> img.px(i, j) == (if j < y || (j == y && i < x) {
                        recovered(first.px(i, j))
                    } else {
                        first.px(i, j)
                    }),
            decreases width - x,
        {
            let p = img.get_pixel(x, y);
            let ghost before = img;
            if p.r != 0 || p.g != 0 || p.b != 0 {
                img.put_pixel(x, y, Rgba { r: p.r, g: p.g, b: p.b, a: 255 });
            }
            proof {
                assert(before.inside(x as int, y as int));
                assert forall|i: int, j: int|
                    #![trigger img.px(i, j)]
                    img.inside(i, j) implies img.px(i, j) == (if j < y || (j == y && i < x + 1) {
                    recovered(first.px(i, j))
                } else {
                    first.px(i, j)
                }) by {
                    assert(before.inside(i, j));
                    let was = before.px(i, j);
                }
            }
            x = x + 1;
        }
        y = y + 1;
    }
    proof {
        assert forall|x: int, y: int|
            #![trigger img.px(x, y)]
            img.inside(x, y) implies img.px(x, y) == drawn_px(
            raw@,
            (y * width + x) * 4,
            false,
        ) by {
            assert(first.inside(x, y));
            let was = first.px(x, y);
        }
    }
    img
}

proof fn lemma_drawn_alpha(raw: Seq<u8>, img: RgbaImage, width: u32, height: u32, stride: usize)
    requires
        raw.len() == width * height * 4,
        stride == width * 4,
        frame::shows_rows(img, raw, width, height, stride, ByteOrder::Bgra, false),
    ensures
        drawn_alpha(raw, width, height) <==> exists|k: int|
            0 <= k < img.pixels().len() && (#[trigger] img.pixels()[k]).a != 0,
{
    assert forall|k: int| 0 <= k < width * height implies (#[trigger] img.pixels()[k]).a
        == frame::pixel_of(raw, k).a by {
        frame::lemma_place_back(k, width as int, height as int);
        let x = k % width as int;
        let y = k / width as int;
        assert(img.inside(x, y));
        assert(img.px(x, y).a == raw[y * stride + x * 4 + 3]);
        assert(y * stride + x * 4 == k * 4) by (nonlinear_arith)
            requires
                stride == width * 4,
                y * width + x == k,
        ;
    }
    if drawn_alpha(raw, width, height) {
        let k = choose|k: int|
            #![trigger frame::pixel_of(raw, k)]
            0 <= k < width * height && frame::pixel_of(raw, k).a != 0;
        assert(img.pixels()[k].a != 0);
    }
}

// ---- painting ---------------------------------------------------------------------------

/// One channel of `over` with the given alpha, laid over one of `under`.
pub open spec fn mix(over: u8, under: u8, alpha: u8) -> u8 {
    ((over * alpha + under * (255 - alpha)) / 255) as u8
}

/// A pixel laid over another: an opaque one replaces it, a transparent one
/// leaves it, and any other is mixed in by its alpha.
pub open spec fn blend(under: Rgba, over: Rgba) -> Rgba {
    if over.a == 0 {
        under
    } else if over.a == 255 {
        over
    } else {
        Rgba {
            r: mix(over.r, under.r, over.a),
            g: mix(over.g, under.g, over.a),
            b: mix(over.b, under.b, over.a),
            a: if over.a >= under.a {
                over.a
            } else {
                under.a
            },
        }
    }
}

fn mixed(over: u8, under: u8, alpha: u8) -> (r: u8)
    ensures
        r == mix(over, under, alpha),
{
    assert(0 <= over * alpha + under * (255 - alpha) <= 255 * 255) by (nonlinear_arith)
        requires
            0 <= over <= 255,
            0 <= under <= 255,
            0 <= alpha <= 255,
    ;
    assert(0 <= over * alpha) by (nonlinear_arith)
        requires
            0 <= over,
            0 <= alpha,
    ;
    assert(0 <= under * (255 - alpha)) by (nonlinear_arith)
        requires
            0 <= under,
            0 <= alpha <= 255,
    ;
    ((over as u16 * alpha as u16 + under as u16 * (255 - alpha as u16)) / 255) as u8
}

fn blended(under: Rgba, over: Rgba) -> (p: Rgba)
    ensures
        p == blend(under, over),
{
    if over.a == 0 {
        return under;
    }
    if over.a == 255 {
        return over;
    }
    Rgba {
        r: mixed(over.r, under.r, over.a),
        g: mixed(over.g, under.g, over.a),
        b: mixed(over.b, under.b, over.a),
        a: if over.a >= under.a { over.a } else { under.a },
    }
}

/// The bitmap of `src` at (`x`, `y`) has a pixel inside `dst`.
pub open spec fn touches(dst: RgbaImage, src: RgbaImage, x: int, y: int) -> bool {
    exists|i: int, j: int| #[trigger] dst.inside(i, j) && src.inside(i - x, j - y)
}

/// `r` is `dst` with the bitmap of `src` painted over it at (`x`, `y`).
pub open spec fn shows_painted(r: RgbaImage, dst: RgbaImage, src: RgbaImage, x: int, y: int)
    -> bool {
    &&& r.wf()
    &&& r.spec_width() == dst.spec_width()
    &&& r.spec_height() == dst.spec_height()
    &&& forall|i: int, j: int|
        #![trigger r.px(i, j)]
        r.inside(i, j) ==> r.px(i, j) == (if src.inside(i - x, j - y) {
            blend(dst.px(i, j), src.px(i - x, j - y))
        } else {
            dst.px(i, j)
        })
}

/// Paints `src` over `dst` with its top left pixel at (`x`, `y`), cut at the
/// edges of `dst`. Answers whether any pixel of it lies inside.
fn composite_at(dst: &mut RgbaImage, src: &RgbaImage, x: i64, y: i64) -> (r: bool)
    requires
        old(dst).wf(),
        src.wf(),
        -0x2_0000_0000 <= x <= 0x2_0000_0000,
        -0x2_0000_0000 <= y <= 0x2_0000_0000,
    ensures
        shows_painted(*final(dst), *old(dst), *src, x as int, y as int),
        r == touches(*old(dst), *src, x as int, y as int),
{
    let dst_w: i64 = dst.width() as i64;
    let dst_h: i64 = dst.height() as i64;
    let x0: i64 = if x >= 0 { x } else { 0 };
    let y0: i64 = if y >= 0 { y } else { 0 };
    let right: i64 = x + src.width() as i64;
    let bottom: i64 = y + src.height() as i64;
    let x1: i64 = if right <= dst_w { right } else { dst_w };
    let y1: i64 = if bottom <= dst_h { bottom } else { dst_h };
    if x0 >= x1 || y0 >= y1 {
        return false;
    }
    let ghost first = *dst;
    assert(first.inside(x0 as int, y0 as int) && src.inside(x0 - x, y0 - y));
    let mut dy: i64 = y0;
    while dy < y1
        invariant
            src.wf(),
            dst.wf(),
            first.wf(),
            dst.spec_width() == first.spec_width(),
            dst.spec_height() == first.spec_height(),
            0 <= x0 <= x1 <= first.spec_width(),
            0 <= y0 <= dy <= y1 <= first.spec_height(),
            x <= x0,
            y <= y0,
            -0x2_0000_0000 <= x,
            -0x2_0000_0000 <= y,
            x1 <= x + src.spec_width(),
            y1 <= y + src.spec_height(),
            forall|i: int, j: int|
                #![trigger dst.px(i, j)]
                dst.inside(i, j) ==> dst.px(i, j) == (if x0 <= i < x1 && y0 <= j < dy {
                    blend(first.px(i, j), src.px(i - x, j - y))
                } else {
                    first.px(i, j)
                }),
        decreases y1 - dy,
    {
        let mut dx: i64 = x0;
        while dx < x1
            invariant
                src.wf(),
                dst.wf(),
                first.wf(),
                dst.spec_width() == first.spec_width(),
                dst.spec_height() == first.spec_height(),
                0 <= x0 <= dx <= x1 <= first.spec_width(),
                0 <= y0 <= dy < y1 <= first.spec_height(),
                x <= x0,
                y <= y0,
                -0x2_0000_0000 <= x,
                -0x2_0000_0000 <= y,
                x1 <= x + src.spec_width(),
                y1 <= y + src.spec_height(),
                forall|i: int, j: int|
                    #![trigger dst.px(i, j)]
                    dst.inside(i, j) ==> dst.px(i, j) == (if x0 <= i < x1 && (y0 <= j < dy || (j
                        == dy && i < dx)) {
                        blend(first.px(i, j), src.px(i - x, j - y))
                    } else {
                        first.px(i, j)
                    }),
            decreases x1 - dx,
        {
            let sp = src.get_pixel((dx - x) as u32, (dy - y) as u32);
            let dp = dst.get_pixel(dx as u32, dy as u32);
            let ghost before = *dst;
            dst.put_pixel(dx as u32, dy as u32, blended(dp, sp));
            proof {
                assert(before.inside(dx as int, dy as int));
                assert(before.px(dx as int, dy as int) == first.px(dx as int, dy as int));
                assert forall|i: int, j: int|
                    #![trigger dst.px(i, j)]
                    dst.inside(i, j) implies dst.px(i, j) == (if x0 <= i < x1 && (y0 <= j < dy || (
                j == dy && i < dx + 1)) {
                    blend(first.px(i, j), src.px(i - x, j - y))
                } else {
                    first.px(i, j)
                }) by {
                    assert(before.inside(i, j));
                    let was = before.px(i, j);
                }
            }
            dx = dx + 1;
        }
        dy = dy + 1;
    }
    true
}

/// Paints a pointer that was snapped earlier onto a frame whose top left pixel
/// is the desktop's point `screen_origin`. Answers whether any pixel of it
/// lies inside the frame.
pub fn composite_cursor_shot(image: &mut RgbaImage, shot: &CursorShot, screen_origin: (i32, i32))
    -> (r: bool)
    requires
        old(image).wf(),
        shot.wf(),
    ensures
        final(image).wf(),
        shows_painted(
            *final(image),
            *old(image),
            shot.spec_image(),
            shot.spec_pos().0 - screen_origin.0,
            shot.spec_pos().1 - screen_origin.1,
        ),
        r == touches(
            *old(image),
            shot.spec_image(),
            shot.spec_pos().0 - screen_origin.0,
            shot.spec_pos().1 - screen_origin.1,
        ),
{
    let rel_x: i64 = shot.screen_x as i64 - screen_origin.0 as i64;
    let rel_y: i64 = shot.screen_y as i64 - screen_origin.1 as i64;
    composite_at(image, &shot.image, rel_x, rel_y)
}

/// A pointer that lies outside the frame leaves it as it is.
pub proof fn lemma_pointer_outside_leaves_frame(
    r: RgbaImage,
    dst: RgbaImage,
    src: RgbaImage,
    x: int,
    y: int,
)
    requires
        dst.wf(),
        shows_painted(r, dst, src, x, y),
        !touches(dst, src, x, y),
    ensures
        r.pixels() == dst.pixels(),
{
    let w = dst.spec_width() as int;
    let h = dst.spec_height() as int;
    assert forall|k: int| 0 <= k < dst.pixels().len() implies r.pixels()[k] == dst.pixels()[k] by {
        frame::lemma_place_back(k, w, h);
        let i = k % w;
        let j = k / w;
        assert(dst.inside(i, j));
        assert(r.inside(i, j));
        assert(r.px(i, j) == dst.px(i, j));
    }
    assert(r.pixels() =~= dst.pixels());
}

// ---- laws --------------------------------------------------------------------------------------

/// The picture of a pointer has the colours of its bytes, blue first. Its alpha
/// is kept where there is any; where there is none, what has colour is opaque.
pub proof fn lemma_pointers_begin_with_blue(
    raw: &[u8],
    width: u32,
    height: u32,
    img: RgbaImage,
    x: int,
    y: int,
)
    requires
        call_ensures(cursor_image, (raw, width, height), img),
        0 <= x < width,
        0 <= y < height,
    ensures
        img.spec_width() == width,
        img.spec_height() == height,
        ({
            let p = img.pixels()[y * width + x];
            let o = (y * width + x) * 4;
            &&& p.b == raw@[o]
            &&& p.g == raw@[o + 1]
            &&& p.r == raw@[o + 2]
            &&& raw@[o + 3] != 0 ==> p.a == raw@[o + 3]
            &&& p.a == raw@[o + 3] || p.a == 255
            &&& (forall|k: int| 0 <= k < width * height ==> #[trigger] raw@[k * 4 + 3] == 0) ==> (
            p.a == 255) == !(p.r == 0 && p.g == 0 && p.b == 0)
        }),
{
    assert(img.inside(x, y));
    let p = img.px(x, y);
    let k = y * width + x;
    frame::lemma_at(width as int, height as int, x, y);
    assert(frame::pixel_of(raw@, k).a == raw@[k * 4 + 3]);
    if forall|k: int| 0 <= k < width * height ==> #[trigger] raw@[k * 4 + 3] == 0 {
        assert forall|k: int| 0 <= k < width * height implies (#[trigger] frame::pixel_of(
            raw@,
            k,
        )).a == 0 by {
            assert(raw@[k * 4 + 3] == 0);
        }
    }
}

/// A pixel that is painted over another gives a colour between the two, the
/// nearer to its own the more opaque it is: its own where it is opaque, the
/// other where it is transparent.
pub proof fn lemma_blend_lies_between(under: Rgba, over: Rgba)
    ensures
        ({
            let p = blend(under, over);
            &&& over.a == 255 ==> p == over
            &&& over.a == 0 ==> p == under
            &&& over.r <= under.r ==> over.r <= p.r <= under.r
            &&& over.r >= under.r ==> under.r <= p.r <= over.r
            &&& over.g <= under.g ==> over.g <= p.g <= under.g
            &&& over.g >= under.g ==> under.g <= p.g <= over.g
            &&& over.b <= under.b ==> over.b <= p.b <= under.b
            &&& over.b >= under.b ==> under.b <= p.b <= over.b
            &&& p.a >= over.a && p.a >= under.a || over.a == 255
        }),
{
    lemma_mix_lies_between(over.r, under.r, over.a);
    lemma_mix_lies_between(over.g, under.g, over.a);
    lemma_mix_lies_between(over.b, under.b, over.a);
}

/// A mixed channel lies between the two, and as far from the lower one as the
/// alpha says, rounded down.
pub proof fn lemma_mix_lies_between(over: u8, under: u8, alpha: u8)
    ensures
        over <= under ==> over <= mix(over, under, alpha) <= under,
        over >= under ==> under <= mix(over, under, alpha) <= over,
        mix(over, under, alpha) * 255 <= over * alpha + under * (255 - alpha) < mix(
            over,
            under,
            alpha,
        ) * 255 + 255,
{
    let s = over * alpha + under * (255 - alpha);
    assert(0 <= s <= 255 * 255) by (nonlinear_arith)
        requires
            s == over * alpha + under * (255 - alpha),
            0 <= over <= 255,
            0 <= under <= 255,
            0 <= alpha <= 255,
    ;
    if over <= under {
        assert(over * 255 <= s <= under * 255) by (nonlinear_arith)
            requires
                s == over * alpha + under * (255 - alpha),
                0 <= over <= under,
                0 <= alpha <= 255,
        ;
    }
    if over >= under {
        assert(under * 255 <= s <= over * 255) by (nonlinear_arith)
            requires
                s == over * alpha + under * (255 - alpha),
                0 <= under <= over,
                0 <= alpha <= 255,
        ;
    }
}

/// An opaque pixel of the pointer is seen in the frame as far right and below of
/// the pointer's place as it stands in its own picture; a transparent one, and
/// all that the pointer does not cover, leaves the frame as it was.
pub proof fn lemma_painted_pointer_is_in_place(
    r: RgbaImage,
    dst: RgbaImage,
    src: RgbaImage,
    x: int,
    y: int,
    i: int,
    j: int,
)
    requires
        shows_painted(r, dst, src, x, y),
    ensures
        src.inside(i, j) && r.inside(x + i, y + j) && src.px(i, j).a == 255 ==> r.px(
            x + i,
            y + j,
        ) == src.px(i, j),
        src.inside(i, j) && r.inside(x + i, y + j) && src.px(i, j).a == 0 ==> r.px(x + i, y + j)
            == dst.px(x + i, y + j),
        r.inside(i, j) && (i < x || j < y || i >= x + src.spec_width() || j >= y
            + src.spec_height()) ==> r.px(i, j) == dst.px(i, j),
{
    if r.inside(x + i, y + j) {
        let p = r.px(x + i, y + j);
    }
    if r.inside(i, j) {
        let p = r.px(i, j);
    }
}

/// The pixel of the bitmap that is the pointer's tip lies on the desktop's point
/// that the pointer points at.
pub proof fn lemma_tip_is_on_the_point(
    image: RgbaImage,
    pointer: (i32, i32),
    tip: (u32, u32),
    r: CursorShot,
)
    requires
        call_ensures(CursorShot::at, (image, pointer, tip), r),
    ensures
        r.spec_pos().0 + tip.0 == pointer.0,
        r.spec_pos().1 + tip.1 == pointer.1,
        r.spec_image() == image,
{
}

/// A pointer has the width of its bitmap and, where it has colour, its height; a
/// pointer of two masks has half of it. No side is ever empty or longer than 256.
pub proof fn lemma_pointer_sizes(bitmap_width: i32, bitmap_height: i32, has_color: bool, w: u32, h: u32)
    requires
        call_ensures(cursor_size, (bitmap_width, bitmap_height, has_color), Some((w, h))),
    ensures
        w == bitmap_width,
        has_color ==> h == bitmap_height || h == -bitmap_height,
        !has_color ==> h * 2 == bitmap_height || h * 2 == -bitmap_height || h * 2 + 1
            == bitmap_height || h * 2 + 1 == -bitmap_height,
        1 <= w <= 256,
        1 <= h <= 256,
{
}

} // verus!
