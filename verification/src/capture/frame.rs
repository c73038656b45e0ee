//! Frames of RGBA pixels, and the raw buffers that displays hand out.

use vstd::prelude::*;

verus! {

/// One pixel.
#[derive(Clone, Copy, PartialEq, Eq, Structural, Debug)]
pub struct Rgba {
    pub r: u8,
    pub g: u8,
    pub b: u8,
    pub a: u8,
}

impl Rgba {
    pub fn new(r: u8, g: u8, b: u8, a: u8) -> (p: Self)
        ensures
            p == (Rgba { r, g, b, a }),
    {
        Rgba { r, g, b, a }
    }

    /// No colour, whatever the alpha.
    pub open spec fn is_black(self) -> bool {
        self.r == 0 && self.g == 0 && self.b == 0
    }
}

/// A frame: `width` by `height` pixels, row by row from the top left.
#[derive(Debug)]
pub struct RgbaImage {
    width: u32,
    height: u32,
    pixels: Vec<Rgba>,
}

impl Clone for RgbaImage {
    fn clone(&self) -> (r: Self)
        ensures
            r.spec_width() == self.spec_width(),
            r.spec_height() == self.spec_height(),
            r.pixels() == self.pixels(),
    {
        let pixels = self.pixels.clone();
        assert(pixels@ =~= self.pixels@);
        RgbaImage { width: self.width, height: self.height, pixels }
    }
}

impl RgbaImage {
    pub closed spec fn spec_width(&self) -> u32 {
        self.width
    }

    pub closed spec fn spec_height(&self) -> u32 {
        self.height
    }

    /// The pixels, row by row.
    pub closed spec fn pixels(&self) -> Seq<Rgba> {
        self.pixels@
    }

    /// Every pixel of the frame is there, and no other.
    pub open spec fn wf(&self) -> bool {
        &&& self.pixels().len() == self.spec_width() * self.spec_height()
        &&& self.pixels().len() * 4 <= usize::MAX
    }

    /// Where the pixel at column `x` of row `y` stands.
    pub open spec fn at(&self, x: int, y: int) -> int {
        y * self.spec_width() + x
    }

    /// `x` and `y` lie inside the frame.
    pub open spec fn inside(&self, x: int, y: int) -> bool {
        0 <= x < self.spec_width() && 0 <= y < self.spec_height()
    }

    /// The pixel at column `x` of row `y`.
    pub open spec fn px(&self, x: int, y: int) -> Rgba {
        self.pixels()[self.at(x, y)]
    }

    #[verifier::when_used_as_spec(spec_width)]
    pub fn width(&self) -> (w: u32)
        ensures
            w == self.spec_width(),
    {
        self.width
    }

    #[verifier::when_used_as_spec(spec_height)]
    pub fn height(&self) -> (h: u32)
        ensures
            h == self.spec_height(),
    {
        self.height
    }

    /// A frame of the given pixels, or `None` where their number is not
    /// `width` times `height`, or their bytes cannot be addressed.
    pub fn from_pixels(width: u32, height: u32, pixels: Vec<Rgba>) -> (r: Option<RgbaImage>)
        ensures
            r is Some <==> pixels@.len() == width * height && width * height * 4 <= usize::MAX,
            r matches Some(img) ==> img.wf() && img.spec_width() == width && img.spec_height()
                == height && img.pixels() == pixels@,
    {
        if pixels.len() as u64 == area(width, height) && pixels.len() <= usize::MAX / 4 {
            Some(RgbaImage { width, height, pixels })
        } else {
            None
        }
    }

    /// A frame of one colour, or `None` where its bytes cannot be addressed.
    pub fn from_pixel(width: u32, height: u32, p: Rgba) -> (r: Option<RgbaImage>)
        ensures
            r is Some <==> width * height * 4 <= usize::MAX,
            r matches Some(img) ==> img.wf() && img.spec_width() == width && img.spec_height()
                == height && forall|i: int| 0 <= i < img.pixels().len() ==> img.pixels()[i] == p,
    {
        let n: u64 = area(width, height);
        if n > (usize::MAX / 4) as u64 {
            return None;
        }
        let mut pixels: Vec<Rgba> = Vec::new();
        let mut i: u64 = 0;
        while i < n
            invariant
                i <= n,
                pixels@.len() == i,
                forall|j: int| 0 <= j < i ==> pixels@[j] == p,
            decreases n - i,
        {
            pixels.push(p);
            i = i + 1;
        }
        Some(RgbaImage { width, height, pixels })
    }

    /// The pixel at column `x` of row `y`.
    pub fn get_pixel(&self, x: u32, y: u32) -> (p: Rgba)
        requires
            self.wf(),
            self.inside(x as int, y as int),
        ensures
            p == self.px(x as int, y as int),
    {
        self.pixels[place(self.width, self.height, x, y, self.pixels.len())]
    }

    /// Puts a pixel at column `x` of row `y` and keeps the others.
    pub fn put_pixel(&mut self, x: u32, y: u32, p: Rgba)
        requires
            old(self).wf(),
            old(self).inside(x as int, y as int),
        ensures
            final(self).wf(),
            final(self).spec_width() == old(self).spec_width(),
            final(self).spec_height() == old(self).spec_height(),
            forall|i: int, j: int|
                #![trigger final(self).px(i, j)]
                final(self).inside(i, j) ==> final(self).px(i, j) == (if i == x && j == y {
                    p
                } else {
                    old(self).px(i, j)
                }),
    {
        let i: usize = place(self.width, self.height, x, y, self.pixels.len());
        self.pixels.set(i, p);
        proof {
            let w = self.width as int;
            assert forall|i: int, j: int|
                #![trigger self.px(i, j)]
                self.inside(i, j) implies self.px(i, j) == (if i == x && j == y {
                p
            } else {
                old(self).px(i, j)
            }) by {
                lemma_at(w, self.height as int, i, j);
                if j * w + i == y * w + x {
                    lemma_at_injective(w, i, j, x as int, y as int);
                }
            }
        }
    }
}

impl RgbaImage {
    /// Whether any pixel has some alpha.
    pub fn any_alpha(&self) -> (r: bool)
        ensures
            r == exists|k: int| 0 <= k < self.pixels().len() && (#[trigger] self.pixels()[k]).a != 0,
    {
        for i in 0..self.pixels.len()
            invariant
                forall|k: int| 0 <= k < i ==> (#[trigger] self.pixels@[k]).a == 0,
        {
            if self.pixels[i].a != 0 {
                assert(self.pixels()[i as int].a != 0);
                return true;
            }
        }
        false
    }

    /// Gives every pixel full alpha and keeps its colour.
    pub fn force_opaque(&mut self)
        requires
            old(self).wf(),
        ensures
            final(self).wf(),
            final(self).spec_width() == old(self).spec_width(),
            final(self).spec_height() == old(self).spec_height(),
            final(self).pixels() == old(self).pixels().map_values(
                |p: Rgba| crate::capture::opaque(p),
            ),
    {
        let n: usize = self.pixels.len();
        let mut i: usize = 0;
        while i < n
            invariant
                n == old(self).pixels@.len(),
                i <= n,
                self.width == old(self).width,
                self.height == old(self).height,
                self.pixels@.len() == n,
                forall|k: int|
                    0 <= k < n ==> #[trigger] self.pixels@[k] == (if k < i {
                        crate::capture::opaque(old(self).pixels@[k])
                    } else {
                        old(self).pixels@[k]
                    }),
            decreases n - i,
        {
            let p = self.pixels[i];
            self.pixels.set(i, Rgba { r: p.r, g: p.g, b: p.b, a: 255 });
            i = i + 1;
        }
        assert(self.pixels() =~= old(self).pixels().map_values(
            |p: Rgba| crate::capture::opaque(p),
        ));
    }
}

/// How many pixels a frame has.
pub fn area(width: u32, height: u32) -> (n: u64)
    ensures
        n == width * height,
{
    assert(0 <= width * height <= 0xffff_ffff * 0xffff_ffff) by (nonlinear_arith)
        requires
            0 <= width <= 0xffff_ffff,
            0 <= height <= 0xffff_ffff,
    ;
    (width as u64) * (height as u64)
}

/// Where a pixel stands among the `n` of its frame.
fn place(width: u32, height: u32, x: u32, y: u32, n: usize) -> (i: usize)
    requires
        n == width * height,
        x < width,
        y < height,
    ensures
        i == y * width + x,
        i < n,
{
    proof {
        lemma_at(width as int, height as int, x as int, y as int);
    }
    (y as usize) * (width as usize) + x as usize
}

/// A pixel inside a frame of `w` by `h` stands among its `w * h` pixels.
pub proof fn lemma_at(w: int, h: int, x: int, y: int)
    requires
        0 <= x < w,
        0 <= y < h,
    ensures
        0 <= y * w + x < w * h,
        y * w <= (h - 1) * w,
{
    assert(y * w <= (h - 1) * w) by (nonlinear_arith)
        requires
            0 <= y <= h - 1,
            0 <= w,
    ;
    assert((h - 1) * w == w * h - w) by (nonlinear_arith);
    assert(0 <= y * w) by (nonlinear_arith)
        requires
            0 <= y,
            0 <= w,
    ;
}

/// Two pixels stand at the same place only where they are the same pixel.
pub proof fn lemma_at_injective(w: int, x1: int, y1: int, x2: int, y2: int)
    requires
        0 <= x1 < w,
        0 <= x2 < w,
        y1 * w + x1 == y2 * w + x2,
    ensures
        x1 == x2,
        y1 == y2,
{
    vstd::arithmetic::div_mod::lemma_fundamental_div_mod_converse(y1 * w + x1, w, y1, x1);
    vstd::arithmetic::div_mod::lemma_fundamental_div_mod_converse(y1 * w + x1, w, y2, x2);
}

// ---- raw buffers ---------------------------------------------------------------

/// The order of the colour bytes of a pixel in a raw buffer.
#[derive(Clone, Copy, PartialEq, Eq, Structural, Debug)]
pub enum ByteOrder {
    Rgba,
    Bgra,
}

/// The pixel whose four bytes begin at `o`.
pub open spec fn raw_px(raw: Seq<u8>, o: int, order: ByteOrder, opaque: bool) -> Rgba {
    let a = if opaque {
        255u8
    } else {
        raw[o + 3]
    };
    match order {
        ByteOrder::Rgba => Rgba { r: raw[o], g: raw[o + 1], b: raw[o + 2], a },
        ByteOrder::Bgra => Rgba { r: raw[o + 2], g: raw[o + 1], b: raw[o], a },
    }
}

fn read_px(raw: &[u8], o: usize, order: ByteOrder, opaque: bool) -> (p: Rgba)
    requires
        o + 4 <= raw@.len(),
        raw@.len() <= usize::MAX,
    ensures
        p == raw_px(raw@, o as int, order, opaque),
{
    let a: u8 = if opaque {
        255
    } else {
        raw[o + 3]
    };
    match order {
        ByteOrder::Rgba => Rgba { r: raw[o], g: raw[o + 1], b: raw[o + 2], a },
        ByteOrder::Bgra => Rgba { r: raw[o + 2], g: raw[o + 1], b: raw[o], a },
    }
}

/// The raw buffer holds every row of a frame whose rows begin `stride` bytes
/// apart, and the frame's own bytes can be addressed.
pub open spec fn rows_fit(len: nat, width: u32, height: u32, stride: usize) -> bool {
    &&& width * height * 4 <= usize::MAX
    &&& height > 0 ==> len >= (height - 1) * stride + width * 4
}

/// Rows that do not overlap fit where the last of them does.
pub proof fn lemma_rows_fit(len: nat, width: u32, height: u32, stride: usize)
    requires
        len <= usize::MAX,
        stride >= width * 4,
        height > 0 ==> len >= (height - 1) * stride + width * 4,
    ensures
        rows_fit(len, width, height, stride),
{
    if height > 0 {
        assert(width * height * 4 <= (height - 1) * stride + width * 4) by (nonlinear_arith)
            requires
                height > 0,
                stride >= width * 4,
        ;
    }
}

/// The frame that a raw buffer holds: row `y` begins at byte `y * stride`.
pub open spec fn shows_rows(
    img: RgbaImage,
    raw: Seq<u8>,
    width: u32,
    height: u32,
    stride: usize,
    order: ByteOrder,
    opaque: bool,
) -> bool {
    &&& img.wf()
    &&& img.spec_width() == width
    &&& img.spec_height() == height
    &&& forall|x: int, y: int|
        #![trigger img.px(x, y)]
        img.inside(x, y) ==> img.px(x, y) == raw_px(raw, y * stride + x * 4, order, opaque)
}

/// Reads a frame out of a raw buffer whose rows begin `stride` bytes apart.
pub fn image_from_rows(
    raw: &[u8],
    width: u32,
    height: u32,
    stride: usize,
    order: ByteOrder,
    opaque: bool,
) -> (img: RgbaImage)
    requires
        rows_fit(raw@.len(), width, height, stride),
    ensures
        shows_rows(img, raw@, width, height, stride, order, opaque),
{
    let n: usize = raw.len();
    let mut pixels: Vec<Rgba> = Vec::new();
    let mut y: u32 = 0;
    let mut row: usize = 0;
    while y < height
        invariant
            n == raw@.len(),
            rows_fit(n as nat, width, height, stride),
            y <= height,
            y < height ==> row == y * stride,
            pixels@.len() == y * width,
            forall|k: int|
                0 <= k < pixels@.len() ==> pixels@[k] == raw_px(
                    raw@,
                    #[trigger] row_offset(k, width as int, stride as int),
                    order,
                    opaque,
                ),
        decreases height - y,
    {
        proof {
            assert(y * stride <= (height - 1) * stride) by (nonlinear_arith)
                requires
                    0 <= y <= height - 1,
                    0 <= stride,
            ;
        }
        let mut x: u32 = 0;
        while x < width
            invariant
                n == raw@.len(),
                y < height,
                x <= width,
                row == y * stride,
                row + width * 4 <= n,
                pixels@.len() == y * width + x,
                forall|k: int|
                    0 <= k < pixels@.len() ==> pixels@[k] == raw_px(
                        raw@,
                        #[trigger] row_offset(k, width as int, stride as int),
                        order,
                        opaque,
                    ),
            decreases width - x,
        {
            let p = read_px(raw, row + (x as usize) * 4, order, opaque);
            proof {
                lemma_row_offset(x as int, y as int, width as int, stride as int);
            }
            pixels.push(p);
            x = x + 1;
        }
        y = y + 1;
        proof {
            assert(y * width == (y - 1) * width + width) by (nonlinear_arith);
            assert(y * stride == (y - 1) * stride + stride) by (nonlinear_arith);
            if y < height {
                assert(y * stride <= (height - 1) * stride) by (nonlinear_arith)
                    requires
                        0 <= y <= height - 1,
                        0 <= stride,
                ;
            }
        }
        if y < height {
            row = row + stride;
        }
    }
    proof {
        assert(height * width == width * height) by (nonlinear_arith);
    }
    let img = RgbaImage { width, height, pixels };
    proof {
        assert forall|i: int, j: int|
            #![trigger img.px(i, j)]
            img.inside(i, j) implies img.px(i, j) == raw_px(
            raw@,
            j * stride + i * 4,
            order,
            opaque,
        ) by {
            lemma_at(width as int, height as int, i, j);
            lemma_row_offset(i, j, width as int, stride as int);
        }
    }
    img
}

/// Where the bytes of the `k`th pixel begin in a buffer whose rows begin
/// `stride` bytes apart.
spec fn row_offset(k: int, width: int, stride: int) -> int {
    (k / width) * stride + (k % width) * 4
}

proof fn lemma_row_offset(x: int, y: int, width: int, stride: int)
    requires
        0 <= x < width,
    ensures
        row_offset(y * width + x, width, stride) == y * stride + x * 4,
{
    vstd::arithmetic::div_mod::lemma_fundamental_div_mod_converse(y * width + x, width, y, x);
}

/// The frame's bytes: four for each pixel, in the order red, green, blue,
/// alpha.
pub fn raw_of(img: &RgbaImage) -> (raw: Vec<u8>)
    requires
        img.wf(),
    ensures
        raw@.len() == img.pixels().len() * 4,
        forall|i: int|
            0 <= i < img.pixels().len() ==> #[trigger] pixel_of(raw@, i) == img.pixels()[i],
{
    let mut raw: Vec<u8> = Vec::new();
    let mut i: usize = 0;
    while i < img.pixels.len()
        invariant
            i <= img.pixels@.len(),
            raw@.len() == i * 4,
            img.wf(),
            forall|j: int| 0 <= j < i ==> #[trigger] pixel_of(raw@, j) == img.pixels@[j],
        decreases img.pixels@.len() - i,
    {
        let p = img.pixels[i];
        let ghost before = raw@;
        raw.push(p.r);
        raw.push(p.g);
        raw.push(p.b);
        raw.push(p.a);
        proof {
            assert forall|j: int| 0 <= j < i + 1 implies #[trigger] pixel_of(raw@, j)
                == img.pixels@[j] by {
                if j < i {
                    assert(pixel_of(before, j) == img.pixels@[j]);
                }
            }
        }
        i = i + 1;
    }
    raw
}

/// The `k`th pixel of a buffer of densely packed RGBA pixels.
pub open spec fn pixel_of(raw: Seq<u8>, k: int) -> Rgba {
    raw_px(raw, k * 4, ByteOrder::Rgba, false)
}

/// The buffer holds the frame's pixels, densely packed, and nothing else.
pub open spec fn packs(raw: Seq<u8>, img: RgbaImage) -> bool {
    &&& raw.len() == img.pixels().len() * 4
    &&& forall|k: int|
        0 <= k < img.pixels().len() ==> #[trigger] pixel_of(raw, k) == img.pixels()[k]
}

/// The frame of densely packed RGBA pixels, or `None` where the buffer is not
/// four bytes for each of them.
pub fn from_raw(width: u32, height: u32, raw: &[u8]) -> (r: Option<RgbaImage>)
    ensures
        r is Some <==> raw@.len() == width * height * 4,
        r matches Some(img) ==> img.wf() && img.spec_width() == width && img.spec_height()
            == height && forall|k: int|
            0 <= k < img.pixels().len() ==> #[trigger] img.pixels()[k] == pixel_of(raw@, k),
{
    let n: usize = raw.len();
    if n % 4 != 0 || (n / 4) as u64 != area(width, height) {
        return None;
    }
    let mut pixels: Vec<Rgba> = Vec::new();
    let mut k: usize = 0;
    while k < n / 4
        invariant
            n == raw@.len(),
            k <= n / 4,
            pixels@.len() == k,
            forall|j: int| 0 <= j < k ==> #[trigger] pixels@[j] == pixel_of(raw@, j),
        decreases n / 4 - k,
    {
        pixels.push(read_px(raw, k * 4, ByteOrder::Rgba, false));
        k = k + 1;
    }
    Some(RgbaImage { width, height, pixels })
}

// ---- cutting, turning and pasting ---------------------------------------------

/// `image::imageops::crop_imm` and `SubImage::to_image` on a buffer of packed
/// RGBA pixels: the pixels of the rectangle at (`x`, `y`), row by row.
#[verifier::external_body]
fn crop_imm(raw: Vec<u8>, width: u32, height: u32, x: u32, y: u32, w: u32, h: u32) -> (r: Vec<u8>)
    requires
        raw@.len() == width * height * 4,
        x + w <= width,
        y + h <= height,
    ensures
        r@.len() == w * h * 4,
        forall|k: int|
            0 <= k < w * h ==> #[trigger] pixel_of(r@, k) == pixel_of(
                raw@,
                (y + k / w as int) * width + x + k % w as int,
            ),
{
    let img = image::RgbaImage::from_raw(width, height, raw).unwrap();
    image::imageops::crop_imm(&img, x, y, w, h).to_image().into_raw()
}

/// `image::imageops::rotate90` on a buffer of packed RGBA pixels: a quarter
/// turn clockwise, so that column `i` of row `j` comes from row `height - 1 - i`
/// and column `j`.
#[verifier::external_body]
fn rotate90(raw: Vec<u8>, width: u32, height: u32) -> (r: Vec<u8>)
    requires
        raw@.len() == width * height * 4,
    ensures
        r@.len() == raw@.len(),
        forall|k: int|
            0 <= k < width * height ==> #[trigger] pixel_of(r@, k) == pixel_of(
                raw@,
                (height - 1 - k % height as int) * width + k / height as int,
            ),
{
    let img = image::RgbaImage::from_raw(width, height, raw).unwrap();
    image::imageops::rotate90(&img).into_raw()
}

/// `image::imageops::rotate270` on a buffer of packed RGBA pixels: a quarter
/// turn the other way, so that column `i` of row `j` comes from row `i` and
/// column `width - 1 - j`.
#[verifier::external_body]
fn rotate270(raw: Vec<u8>, width: u32, height: u32) -> (r: Vec<u8>)
    requires
        raw@.len() == width * height * 4,
    ensures
        r@.len() == raw@.len(),
        forall|k: int|
            0 <= k < width * height ==> #[trigger] pixel_of(r@, k) == pixel_of(
                raw@,
                (k % height as int) * width + (width - 1 - k / height as int),
            ),
{
    let img = image::RgbaImage::from_raw(width, height, raw).unwrap();
    image::imageops::rotate270(&img).into_raw()
}

/// `image::GenericImage::copy_from` on buffers of packed RGBA pixels: pastes
/// `src` with its top left pixel at (`x`, `y`) of `dst`. It refuses, and keeps
/// `dst`, where `src` does not fit there.
#[verifier::external_body]
fn copy_from(dst: &mut Vec<u8>, dw: u32, dh: u32, src: Vec<u8>, sw: u32, sh: u32, x: u32, y: u32)
    -> (ok: bool)
    requires
        old(dst)@.len() == dw * dh * 4,
        src@.len() == sw * sh * 4,
    ensures
        ok == (x + sw <= dw && y + sh <= dh),
        final(dst)@.len() == old(dst)@.len(),
        !ok ==> final(dst)@ == old(dst)@,
        ok ==> forall|k: int|
            0 <= k < dw * dh ==> #[trigger] pixel_of(final(dst)@, k) == (if x <= k % dw as int && k
                % (dw as int) < x + sw && y <= k / dw as int && k / (dw as int) < y + sh {
                pixel_of(src@, (k / dw as int - y) * sw + (k % dw as int - x))
            } else {
                pixel_of(old(dst)@, k)
            }),
{
    let mut below = image::RgbaImage::from_raw(dw, dh, std::mem::take(dst)).unwrap();
    let above = image::RgbaImage::from_raw(sw, sh, src).unwrap();
    let ok = image::GenericImage::copy_from(&mut below, &above, x, y).is_ok();
    *dst = below.into_raw();
    ok
}

/// `r` is `dst` with `src` over it, whose top left pixel is at (`x`, `y`).
pub open spec fn shows_pasted(r: RgbaImage, dst: RgbaImage, src: RgbaImage, x: int, y: int)
    -> bool {
    &&& r.wf()
    &&& r.spec_width() == dst.spec_width()
    &&& r.spec_height() == dst.spec_height()
    &&& forall|i: int, j: int|
        #![trigger r.px(i, j)]
        r.inside(i, j) ==> r.px(i, j) == (if src.inside(i - x, j - y) {
            src.px(i - x, j - y)
        } else {
            dst.px(i, j)
        })
}

/// Pastes `src` over `dst` at (`x`, `y`) where it fits; keeps `dst` where it
/// does not.
pub fn paste(dst: &mut RgbaImage, src: &RgbaImage, x: u32, y: u32) -> (ok: bool)
    requires
        old(dst).wf(),
        src.wf(),
    ensures
        ok == (x + src.spec_width() <= old(dst).spec_width() && y + src.spec_height() <= old(dst).spec_height()),
        ok ==> shows_pasted(*final(dst), *old(dst), *src, x as int, y as int),
        !ok ==> *final(dst) == *old(dst),
{
    let mut raw = raw_of(dst);
    let ghost below = raw@;
    let over = raw_of(src);
    let ghost above = over@;
    let ok = copy_from(&mut raw, dst.width, dst.height, over, src.width, src.height, x, y);
    if !ok {
        return false;
    }
    let pasted = from_raw(dst.width, dst.height, &raw).unwrap();
    proof {
        let dw = dst.spec_width() as int;
        let dh = dst.spec_height() as int;
        let sw = src.spec_width() as int;
        let sh = src.spec_height() as int;
        assert forall|i: int, j: int|
            #![trigger pasted.px(i, j)]
            pasted.inside(i, j) implies pasted.px(i, j) == (if src.inside(i - x, j - y) {
            src.px(i - x, j - y)
        } else {
            dst.px(i, j)
        }) by {
            let k = j * dw + i;
            lemma_at(dw, dh, i, j);
            vstd::arithmetic::div_mod::lemma_fundamental_div_mod_converse(k, dw, j, i);
            assert(pasted.pixels()[k] == pixel_of(raw@, k));
            assert(pixel_of(below, k) == dst.pixels()[k]);
            if src.inside(i - x, j - y) {
                lemma_at(sw, sh, i - x, j - y);
                assert(pixel_of(above, (j - y) * sw + (i - x)) == src.pixels()[(j - y) * sw + (i
                    - x)]);
            }
        }
    }
    *dst = pasted;
    true
}

/// The pixels of `img` in the rectangle at (`x`, `y`).
pub open spec fn shows_crop(r: RgbaImage, img: RgbaImage, x: int, y: int, w: u32, h: u32) -> bool {
    &&& r.wf()
    &&& r.spec_width() == w
    &&& r.spec_height() == h
    &&& forall|i: int, j: int|
        #![trigger r.px(i, j)]
        r.inside(i, j) ==> r.px(i, j) == img.px(x + i, y + j)
}

/// Cuts the rectangle of `w` by `h` pixels at (`x`, `y`) out of the frame.
pub fn crop(img: &RgbaImage, x: u32, y: u32, w: u32, h: u32) -> (r: RgbaImage)
    requires
        img.wf(),
        x + w <= img.spec_width(),
        y + h <= img.spec_height(),
    ensures
        shows_crop(r, *img, x as int, y as int, w, h),
{
    proof {
        assert(w * h <= img.spec_width() * img.spec_height()) by (nonlinear_arith)
            requires
                0 <= w <= img.spec_width(),
                0 <= h <= img.spec_height(),
        ;
    }
    let raw = raw_of(img);
    let ghost packed = raw@;
    let cut = crop_imm(raw, img.width, img.height, x, y, w, h);
    let r = from_raw(w, h, &cut).unwrap();
    proof {
        let width = img.spec_width() as int;
        let height = img.spec_height() as int;
        assert forall|i: int, j: int|
            #![trigger r.px(i, j)]
            r.inside(i, j) implies r.px(i, j) == img.px(x + i, y + j) by {
            let k = j * w + i;
            lemma_at(w as int, h as int, i, j);
            lemma_at(width, height, x + i, y + j);
            vstd::arithmetic::div_mod::lemma_fundamental_div_mod_converse(k, w as int, j, i);
            assert(r.pixels()[k] == pixel_of(cut@, k));
            assert(pixel_of(packed, (y + j) * width + (x + i)) == img.pixels()[(y + j) * width + (x
                + i)]);
        }
    }
    r
}

/// A quarter turn clockwise: what was the bottom row is the left column.
pub open spec fn shows_turned_right(r: RgbaImage, img: RgbaImage) -> bool {
    &&& r.wf()
    &&& r.spec_width() == img.spec_height()
    &&& r.spec_height() == img.spec_width()
    &&& forall|i: int, j: int|
        #![trigger r.px(i, j)]
        r.inside(i, j) ==> r.px(i, j) == img.px(j, img.spec_height() - 1 - i)
}

/// A quarter turn the other way: what was the right column is the top row.
pub open spec fn shows_turned_left(r: RgbaImage, img: RgbaImage) -> bool {
    &&& r.wf()
    &&& r.spec_width() == img.spec_height()
    &&& r.spec_height() == img.spec_width()
    &&& forall|i: int, j: int|
        #![trigger r.px(i, j)]
        r.inside(i, j) ==> r.px(i, j) == img.px(img.spec_width() - 1 - j, i)
}

/// Turns the frame a quarter clockwise.
pub fn turn_right(img: &RgbaImage) -> (r: RgbaImage)
    requires
        img.wf(),
    ensures
        shows_turned_right(r, *img),
{
    let raw = raw_of(img);
    let ghost packed = raw@;
    let turned = rotate90(raw, img.width, img.height);
    proof {
        assert(img.width * img.height == img.height * img.width) by (nonlinear_arith);
    }
    let r = from_raw(img.height, img.width, &turned).unwrap();
    proof {
        let width = img.spec_width() as int;
        let height = img.spec_height() as int;
        assert forall|i: int, j: int|
            #![trigger r.px(i, j)]
            r.inside(i, j) implies r.px(i, j) == img.px(j, height - 1 - i) by {
            let k = j * height + i;
            lemma_at(height, width, i, j);
            lemma_at(width, height, j, height - 1 - i);
            vstd::arithmetic::div_mod::lemma_fundamental_div_mod_converse(k, height, j, i);
            assert(r.pixels()[k] == pixel_of(turned@, k));
            assert(pixel_of(packed, (height - 1 - i) * width + j) == img.pixels()[(height - 1 - i)
                * width + j]);
        }
    }
    r
}

/// Turns the frame a quarter the other way.
pub fn turn_left(img: &RgbaImage) -> (r: RgbaImage)
    requires
        img.wf(),
    ensures
        shows_turned_left(r, *img),
{
    let raw = raw_of(img);
    let ghost packed = raw@;
    let turned = rotate270(raw, img.width, img.height);
    proof {
        assert(img.width * img.height == img.height * img.width) by (nonlinear_arith);
    }
    let r = from_raw(img.height, img.width, &turned).unwrap();
    proof {
        let width = img.spec_width() as int;
        let height = img.spec_height() as int;
        assert forall|i: int, j: int|
            #![trigger r.px(i, j)]
            r.inside(i, j) implies r.px(i, j) == img.px(width - 1 - j, i) by {
            let k = j * height + i;
            lemma_at(height, width, i, j);
            lemma_at(width, height, width - 1 - j, i);
            vstd::arithmetic::div_mod::lemma_fundamental_div_mod_converse(k, height, j, i);
            assert(r.pixels()[k] == pixel_of(turned@, k));
            assert(pixel_of(packed, i * width + (width - 1 - j)) == img.pixels()[i * width + (width
                - 1 - j)]);
        }
    }
    r
}

/// Turning right and then left gives the frame back, pixel for pixel.
pub proof fn lemma_turns_undo(img: RgbaImage, right: RgbaImage, back: RgbaImage)
    requires
        img.wf(),
        shows_turned_right(right, img),
        shows_turned_left(back, right),
    ensures
        back.spec_width() == img.spec_width(),
        back.spec_height() == img.spec_height(),
        back.pixels() == img.pixels(),
{
    let width = img.spec_width() as int;
    let height = img.spec_height() as int;
    assert forall|k: int| 0 <= k < img.pixels().len() implies back.pixels()[k]
        == img.pixels()[k] by {
        let i = k % width;
        let j = k / width;
        lemma_place_back(k, width, height);
        assert(back.inside(i, j));
        assert(back.px(i, j) == right.px(height - 1 - j, i));
        assert(right.inside(height - 1 - j, i));
        assert(right.px(height - 1 - j, i) == img.px(i, j));
    }
    assert(back.pixels() =~= img.pixels());
}

/// The `k`th of `w * h` pixels is at column `k % w` of row `k / w`.
pub proof fn lemma_place_back(k: int, w: int, h: int)
    requires
        0 <= k < w * h,
        0 <= w,
        0 <= h,
    ensures
        w > 0,
        0 <= k % w < w,
        0 <= k / w < h,
        (k / w) * w + k % w == k,
{
    assert(w > 0) by (nonlinear_arith)
        requires
            0 <= k < w * h,
            0 <= w,
            0 <= h,
    ;
    vstd::arithmetic::div_mod::lemma_fundamental_div_mod(k, w);
    assert(w * (k / w) == (k / w) * w) by (nonlinear_arith);
    assert(k / w < h) by (nonlinear_arith)
        requires
            (k / w) * w + k % w == k,
            0 <= k % w,
            k < w * h,
            w > 0,
    ;
    assert(k / w >= 0) by (nonlinear_arith)
        requires
            0 <= k,
            w > 0,
    ;
}

// ---- laws --------------------------------------------------------------------------------------

/// A pixel of a frame that was read out of rows has the colours of its four
/// bytes: green is always the second, red is the first and blue the third where
/// the order begins with red, and the other way round where it begins with blue.
pub proof fn lemma_rows_are_read_byte_by_byte(
    raw: &[u8],
    width: u32,
    height: u32,
    stride: usize,
    order: ByteOrder,
    opaque: bool,
    img: RgbaImage,
    x: int,
    y: int,
)
    requires
        call_ensures(image_from_rows, (raw, width, height, stride, order, opaque), img),
        0 <= x < width,
        0 <= y < height,
    ensures
        img.spec_width() == width,
        img.spec_height() == height,
        img.pixels().len() == width * height,
        ({
            let p = img.pixels()[y * width + x];
            let o = y * stride + x * 4;
            &&& p.g == raw@[o + 1]
            &&& order is Rgba ==> p.r == raw@[o] && p.b == raw@[o + 2]
            &&& order is Bgra ==> p.b == raw@[o] && p.r == raw@[o + 2]
            &&& p.a == (if opaque {
                255
            } else {
                raw@[o + 3]
            })
        }),
{
    assert(img.inside(x, y));
    let p = img.px(x, y);
}

/// The bytes of a frame are, for each pixel, its red, green, blue and alpha.
pub proof fn lemma_raw_is_red_green_blue_alpha(img: &RgbaImage, raw: Vec<u8>, k: int)
    requires
        call_ensures(raw_of, (img,), raw),
        0 <= k < img.pixels().len(),
    ensures
        raw@.len() == img.pixels().len() * 4,
        raw@[k * 4] == img.pixels()[k].r,
        raw@[k * 4 + 1] == img.pixels()[k].g,
        raw@[k * 4 + 2] == img.pixels()[k].b,
        raw@[k * 4 + 3] == img.pixels()[k].a,
{
    assert(pixel_of(raw@, k) == img.pixels()[k]);
}

/// A frame that is read out of packed bytes has their colours.
pub proof fn lemma_packed_bytes_are_read(
    width: u32,
    height: u32,
    raw: &[u8],
    img: RgbaImage,
    k: int,
)
    requires
        call_ensures(from_raw, (width, height, raw), Some(img)),
        0 <= k < width * height,
    ensures
        img.spec_width() == width,
        img.spec_height() == height,
        img.pixels()[k].r == raw@[k * 4],
        img.pixels()[k].g == raw@[k * 4 + 1],
        img.pixels()[k].b == raw@[k * 4 + 2],
        img.pixels()[k].a == raw@[k * 4 + 3],
{
    assert(img.pixels()[k] == pixel_of(raw@, k));
}

/// A frame that is written out and read in again is the same frame.
pub proof fn lemma_raw_reads_back(
    img: &RgbaImage,
    raw: Vec<u8>,
    bytes: &[u8],
    back: Option<RgbaImage>,
)
    requires
        img.wf(),
        call_ensures(raw_of, (img,), raw),
        bytes@ == raw@,
        call_ensures(from_raw, (img.spec_width(), img.spec_height(), bytes), back),
    ensures
        back matches Some(b) && b.spec_width() == img.spec_width() && b.spec_height()
            == img.spec_height() && b.pixels() == img.pixels(),
{
    let b = back->0;
    assert forall|k: int| 0 <= k < img.pixels().len() implies b.pixels()[k]
        == img.pixels()[k] by {
        assert(pixel_of(raw@, k) == img.pixels()[k]);
    }
    assert(b.pixels() =~= img.pixels());
}

/// The pixel at a column and a row is the one behind all rows above it and all
/// pixels left of it.
pub proof fn lemma_pixels_stand_row_by_row(img: &RgbaImage, x: u32, y: u32, p: Rgba)
    requires
        call_ensures(RgbaImage::get_pixel, (img, x, y), p),
    ensures
        p == img.pixels()[y * img.spec_width() + x],
{
}

/// What is cut out is the part of the frame at the place that was asked for.
pub proof fn lemma_crop_is_cut_in_place(
    img: &RgbaImage,
    x: u32,
    y: u32,
    w: u32,
    h: u32,
    r: RgbaImage,
    i: int,
    j: int,
)
    requires
        call_ensures(crop, (img, x, y, w, h), r),
        0 <= i < w,
        0 <= j < h,
    ensures
        r.spec_width() == w,
        r.spec_height() == h,
        r.pixels()[j * w + i] == img.pixels()[(y + j) * img.spec_width() + (x + i)],
{
    assert(r.inside(i, j));
    let p = r.px(i, j);
}

/// A quarter turn clockwise takes the top left corner to the top right, and
/// each row from the top to a column from the right.
pub proof fn lemma_right_turn_is_clockwise(img: &RgbaImage, r: RgbaImage, x: int, y: int)
    requires
        call_ensures(turn_right, (img,), r),
        img.inside(x, y),
    ensures
        r.spec_width() == img.spec_height(),
        r.spec_height() == img.spec_width(),
        r.px(img.spec_height() - 1 - y, x) == img.px(x, y),
{
    assert(r.inside(img.spec_height() - 1 - y, x));
}

/// A quarter turn the other way takes the top left corner to the bottom left,
/// and each column from the left to a row from the bottom.
pub proof fn lemma_left_turn_is_counterclockwise(img: &RgbaImage, r: RgbaImage, x: int, y: int)
    requires
        call_ensures(turn_left, (img,), r),
        img.inside(x, y),
    ensures
        r.spec_width() == img.spec_height(),
        r.spec_height() == img.spec_width(),
        r.px(y, img.spec_width() - 1 - x) == img.px(x, y),
{
    assert(r.inside(y, img.spec_width() - 1 - x));
}

/// Each pixel of what is pasted ends up as far right and below of the place as
/// it was of its own corner, and what is not covered stays.
pub proof fn lemma_paste_covers_its_place(
    r: RgbaImage,
    dst: RgbaImage,
    src: RgbaImage,
    x: int,
    y: int,
    i: int,
    j: int,
)
    requires
        shows_pasted(r, dst, src, x, y),
    ensures
        src.inside(i, j) && r.inside(x + i, y + j) ==> r.px(x + i, y + j) == src.px(i, j),
        r.inside(i, j) && (i < x || j < y || i >= x + src.spec_width() || j >= y
            + src.spec_height()) ==> r.px(i, j) == dst.px(i, j),
{
    if r.inside(x + i, y + j) {
        let p = r.px(x + i, y + j);
    }
    if r.inside(i, j) {
        let p = r.px(i, j);
    }
}

} // verus!
