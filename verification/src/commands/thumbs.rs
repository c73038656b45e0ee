//! Small pictures of captures for the history.

use vstd::prelude::*;

use crate::capture::frame;
use crate::capture::frame::RgbaImage;
use crate::clipboard;
use crate::commands::edited;
use crate::commands::ffmpeg;
use crate::commands::history::CaptureFault;
use crate::text;

verus! {

/// A small picture is never wider than this.
pub const THUMB_WIDTH: u32 = 480;

/// The quality of a small picture.
pub const THUMB_QUALITY: u8 = 75;

/// Whether a small picture is made of the capture.
pub fn history_thumbnail(path_allowed: bool) -> (r: Result<(), CaptureFault>)
    ensures
        r == (if path_allowed {
            Ok::<(), CaptureFault>(())
        } else {
            Err(CaptureFault::Outside)
        }),
{
    if path_allowed {
        Ok(())
    } else {
        Err(CaptureFault::Outside)
    }
}

/// Whether only the first frame of the file is read.
pub fn first_frame_only(name: &str) -> (r: bool)
    ensures
        r == (text::ascii_lower_all(crate::paths::extension(name@)) == "gif"@),
{
    let ext = crate::paths::file_extension(name);
    text::same(text::ascii_lowered(ext.as_str()).as_str(), "gif")
}

/// The first frame of a GIF, by the `image` crate: its width, its height and its
/// pixels, four bytes to each. Nothing where the bytes hold none.
pub uninterp spec fn first_gif_frame(bytes: Seq<u8>) -> Option<(u32, u32, Seq<u8>)>;

/// `image::codecs::gif::GifDecoder` and its first frame: a function of the bytes
/// alone, with four bytes for each pixel.
#[verifier::external_body]
fn decode_first_frame(bytes: &[u8]) -> (r: Option<(u32, u32, Vec<u8>)>)
    ensures
        edited::parts(r) == first_gif_frame(bytes@),
        edited::is_full(r),
{
    let gif = image::codecs::gif::GifDecoder::new(std::io::Cursor::new(bytes)).ok()?;
    let frame = image::AnimationDecoder::into_frames(gif).next()?.ok()?.into_buffer();
    Some((frame.width(), frame.height(), frame.into_raw()))
}

/// What a small picture is made of: the first frame of a GIF, or else the image
/// in the file.
pub open spec fn still(bytes: Seq<u8>, name: Seq<char>) -> Option<(u32, u32, Seq<u8>)> {
    if text::ascii_lower_all(crate::paths::extension(name)) == "gif"@ {
        first_gif_frame(bytes)
    } else {
        edited::decoded_for_name(bytes, name)
    }
}

/// The image that a small picture is made of, where the file holds one.
pub fn still_of(bytes: &[u8], name: &str) -> (r: Option<RgbaImage>)
    ensures
        edited::shows(r, still(bytes@, name@)),
{
    if first_frame_only(name) {
        match decode_first_frame(bytes) {
            None => None,
            Some(t) => frame::from_raw(t.0, t.1, &t.2),
        }
    } else {
        edited::read_picture(bytes, name)
    }
}

// ---- names -------------------------------------------------------------------------------------

/// The last digits of a number in base sixteen.
pub open spec fn hex_number(n: int, digits: nat) -> Seq<char>
    decreases digits,
{
    if digits == 0 {
        Seq::empty()
    } else {
        hex_number(n / 16, (digits - 1) as nat).push(ffmpeg::hex_digit(n % 16))
    }
}

fn write_hex(n: u64, digits: usize) -> (r: String)
    ensures
        r@ == hex_number(n as int, digits as nat),
    decreases digits,
{
    if digits == 0 {
        let s = String::new();
        assert(s@ =~= Seq::<char>::empty());
        return s;
    }
    let mut s = write_hex(n / 16, digits - 1);
    let d: u8 = (n % 16) as u8;
    let c: char = if d < 10 {
        (48u8 + d) as char
    } else {
        (87u8 + d) as char
    };
    assert(c == ffmpeg::hex_digit(n as int % 16));
    s.push(c);
    s
}

/// Where the small picture of a file is kept, by a number that stands for the
/// file: its sixteen digits in base sixteen.
pub fn thumb_name(key: u64) -> (r: String)
    ensures
        r@ == hex_number(key as int, 16) + ".jpg"@,
{
    let mut s = write_hex(key, 16);
    s.append(".jpg");
    s
}

proof fn lemma_hex_tells_numbers_apart(a: int, b: int, digits: nat)
    requires
        0 <= a,
        0 <= b,
        a < vstd::arithmetic::power::pow(16, digits),
        b < vstd::arithmetic::power::pow(16, digits),
        hex_number(a, digits) == hex_number(b, digits),
    ensures
        a == b,
    decreases digits,
{
    reveal(vstd::arithmetic::power::pow);
    if digits > 0 {
        let d = (digits - 1) as nat;
        let x = hex_number(a / 16, d).push(ffmpeg::hex_digit(a % 16));
        let y = hex_number(b / 16, d).push(ffmpeg::hex_digit(b % 16));
        assert(x == y);
        assert(x.last() == y.last());
        assert(x.drop_last() =~= hex_number(a / 16, d));
        assert(y.drop_last() =~= hex_number(b / 16, d));
        assert(a % 16 == b % 16);
        assert(vstd::arithmetic::power::pow(16, digits) == 16 * vstd::arithmetic::power::pow(16, d));
        lemma_hex_tells_numbers_apart(a / 16, b / 16, d);
    }
}

proof fn lemma_hex_len(n: int, digits: nat)
    ensures
        hex_number(n, digits).len() == digits,
    decreases digits,
{
    if digits > 0 {
        lemma_hex_len(n / 16, (digits - 1) as nat);
    }
}

/// Small pictures of files with different numbers are kept under different
/// names.
pub proof fn lemma_thumb_names_differ(a: u64, b: u64)
    requires
        a != b,
    ensures
        hex_number(a as int, 16) + ".jpg"@ != hex_number(b as int, 16) + ".jpg"@,
{
    if hex_number(a as int, 16) + ".jpg"@ == hex_number(b as int, 16) + ".jpg"@ {
        lemma_hex_len(a as int, 16);
        lemma_hex_len(b as int, 16);
        let x = hex_number(a as int, 16) + ".jpg"@;
        let y = hex_number(b as int, 16) + ".jpg"@;
        assert(x.take(16) =~= hex_number(a as int, 16));
        assert(y.take(16) =~= hex_number(b as int, 16));
        assert(vstd::arithmetic::power::pow(16, 16) == 0x1_0000_0000_0000_0000) by {
            reveal_with_fuel(vstd::arithmetic::power::pow, 17);
        }
        lemma_hex_tells_numbers_apart(a as int, b as int, 16);
    }
}

// ---- pictures ----------------------------------------------------------------------------------

/// The pixels of an image on fewer rows and columns, four bytes to each, by the
/// `image` crate.
pub uninterp spec fn shrunk(
    raw: Seq<u8>,
    width: u32,
    height: u32,
    to_width: u32,
    to_height: u32,
) -> Seq<u8>;

/// How many pixels at most go into one of the small picture.
pub open spec fn block(from: u32, to: u32) -> int {
    from / to + 2
}

/// The sums over the pixels that go into one fit 32 bits.
pub open spec fn sums_fit(width: u32, height: u32, to_width: u32, to_height: u32) -> bool {
    block(width, to_width) * block(height, to_height) <= 16_000_000
}

/// An image of the one size has a small picture of the other.
pub open spec fn shrinks(width: u32, height: u32, to_width: u32, to_height: u32) -> bool {
    &&& 0 < to_width <= width <= 0x100_0000
    &&& 0 < to_height <= height <= 0x100_0000
    &&& sums_fit(width, height, to_width, to_height)
}

/// Whether an image of the one size has a small picture of the other.
pub fn can_shrink(width: u32, height: u32, to_width: u32, to_height: u32) -> (r: bool)
    ensures
        r == shrinks(width, height, to_width, to_height),
{
    if to_width == 0 || to_width > width || width > 0x100_0000 || to_height == 0 || to_height
        > height || height > 0x100_0000 {
        return false;
    }
    let across: u64 = (width / to_width) as u64 + 2;
    let down: u64 = (height / to_height) as u64 + 2;
    assert(across * down <= 0x100_0002 * 0x100_0002) by (nonlinear_arith)
        requires
            across <= 0x100_0002,
            down <= 0x100_0002,
    ;
    across * down <= 16_000_000
}

/// `image::imageops::thumbnail`: the pixels of the small picture, a function of
/// the image and of the two sizes alone.
#[verifier::external_body]
fn shrink(raw: Vec<u8>, width: u32, height: u32, to_width: u32, to_height: u32) -> (r: Vec<u8>)
    requires
        raw@.len() == width * height * 4,
        shrinks(width, height, to_width, to_height),
    ensures
        r@ == shrunk(raw@, width, height, to_width, to_height),
        r@.len() == to_width * to_height * 4,
{
    let img = image::RgbaImage::from_raw(width, height, raw).unwrap_or_default();
    image::imageops::thumbnail(&img, to_width, to_height).into_raw()
}

/// The small picture of an image, as a JPEG.
pub open spec fn thumb_bytes(img: RgbaImage, to_width: u32, to_height: u32) -> Option<Seq<u8>> {
    clipboard::jpeg_of(
        clipboard::without_alpha(
            shrunk(
                clipboard::raw_pixels(img),
                img.spec_width(),
                img.spec_height(),
                to_width,
                to_height,
            ),
        ),
        to_width,
        to_height,
        THUMB_QUALITY,
    )
}

/// The file of a small picture with the given sides, where it can be written.
pub fn thumbnail_for(img: &RgbaImage, to_width: u32, to_height: u32) -> (r: Option<Vec<u8>>)
    requires
        img.wf(),
        shrinks(img.spec_width(), img.spec_height(), to_width, to_height),
    ensures
        text::opt_bytes(r) == thumb_bytes(*img, to_width, to_height),
{
    let raw = frame::raw_of(img);
    let w: u32 = img.width();
    let h: u32 = img.height();
    proof {
        clipboard::lemma_raw_pixels(*img, raw@);
        assert(raw@.len() == w * h * 4);
    }
    let small = shrink(raw, w, h, to_width, to_height);
    let rgb = clipboard::drop_alpha(&small);
    assert(rgb@.len() == to_width * to_height * 3);
    clipboard::encode_jpeg(&rgb, to_width, to_height, THUMB_QUALITY)
}

// ---- laws --------------------------------------------------------------------------------------

/// The value of digits in base sixteen.
pub open spec fn hex_value(s: Seq<char>) -> int
    decreases s.len(),
{
    if s.len() == 0 {
        0
    } else {
        hex_value(s.drop_last()) * 16 + (if '0' <= s.last() <= '9' {
            s.last() as int - '0' as int
        } else {
            s.last() as int - 'a' as int + 10
        })
    }
}

proof fn lemma_hex_value(n: int, digits: nat)
    requires
        0 <= n < vstd::arithmetic::power::pow(16, digits),
    ensures
        hex_value(hex_number(n, digits)) == n,
    decreases digits,
{
    reveal(vstd::arithmetic::power::pow);
    if digits > 0 {
        let d = (digits - 1) as nat;
        assert(n / 16 < vstd::arithmetic::power::pow(16, d)) by {
            assert(vstd::arithmetic::power::pow(16, digits) == 16 * vstd::arithmetic::power::pow(
                16,
                d,
            ));
        }
        lemma_hex_value(n / 16, d);
        let s = hex_number(n, digits);
        assert(s.drop_last() =~= hex_number(n / 16, d));
        assert(s.last() == ffmpeg::hex_digit(n % 16));
    }
}

/// A small picture is kept under its number, which reads back from the sixteen
/// digits before the extension.
pub proof fn lemma_thumb_name_tells_the_number(key: u64, r: String)
    requires
        call_ensures(thumb_name, (key,), r),
    ensures
        r@.len() == 20,
        hex_value(r@.take(16)) == key,
        r@.skip(16) == ".jpg"@,
{
    reveal_strlit(".jpg");
    lemma_hex_len(key as int, 16);
    assert(vstd::arithmetic::power::pow(16, 16) == 0x1_0000_0000_0000_0000) by {
        reveal_with_fuel(vstd::arithmetic::power::pow, 17);
    }
    lemma_hex_value(key as int, 16);
    assert(r@.take(16) =~= hex_number(key as int, 16));
    assert(r@.skip(16) =~= ".jpg"@);
}

/// Only of a GIF is the first frame taken alone, whatever the case of its
/// extension.
pub proof fn lemma_first_frames_are_of_gifs(
    name: &str,
    ext: String,
    shown: &str,
    low: String,
    r: bool,
)
    requires
        call_ensures(crate::paths::file_extension, (name,), ext),
        shown@ == ext@,
        call_ensures(text::ascii_lowered, (shown,), low),
        call_ensures(first_frame_only, (name,), r),
    ensures
        r <==> low@ == "gif"@,
{
}

/// A small picture of a file elsewhere is not made.
pub proof fn lemma_files_elsewhere_have_no_thumb(
    ok: Result<(), CaptureFault>,
    refused: Result<(), CaptureFault>,
)
    requires
        call_ensures(history_thumbnail, (true,), ok),
        call_ensures(history_thumbnail, (false,), refused),
    ensures
        ok is Ok,
        refused == Err::<(), CaptureFault>(CaptureFault::Outside),
{
}

/// A small picture has no side longer than the image, and none without pixels;
/// an image of no more than sixteen million pixels has all of these.
pub proof fn lemma_thumbs_are_smaller(
    width: u32,
    height: u32,
    to_width: u32,
    to_height: u32,
    r: bool,
)
    requires
        call_ensures(can_shrink, (width, height, to_width, to_height), r),
    ensures
        r ==> 1 <= to_width <= width && 1 <= to_height <= height,
        1 <= to_width <= width && 1 <= to_height <= height && width <= 3000 && height <= 3000 ==> r,
{
    if 1 <= to_width <= width && 1 <= to_height <= height && width <= 3000 && height <= 3000 {
        let a = block(width, to_width);
        let b = block(height, to_height);
        assert(width / to_width <= width) by (nonlinear_arith)
            requires
                to_width >= 1,
        ;
        assert(height / to_height <= height) by (nonlinear_arith)
            requires
                to_height >= 1,
        ;
        assert(0 <= width / to_width && 0 <= height / to_height);
        assert(a * b <= 16_000_000) by (nonlinear_arith)
            requires
                0 <= a <= 3002,
                0 <= b <= 3002,
        ;
    }
}

/// A small picture is the JPEG of the shrunk pixels without their alpha: red,
/// green and blue of each, in that order.
pub proof fn lemma_thumb_shows_the_shrunk_pixels(
    img: RgbaImage,
    to_width: u32,
    to_height: u32,
    r: Option<Vec<u8>>,
    raw: Vec<u8>,
    small: Seq<u8>,
    rgb: Seq<u8>,
)
    requires
        img.wf(),
        call_ensures(frame::raw_of, (&img,), raw),
        call_ensures(thumbnail_for, (&img, to_width, to_height), r),
        small == shrunk(raw@, img.spec_width(), img.spec_height(), to_width, to_height),
        small.len() == to_width * to_height * 4,
        rgb.len() == to_width * to_height * 3,
        forall|k: int|
            0 <= k < to_width * to_height ==> #[trigger] is_pixel_of(rgb, small, k),
    ensures
        text::opt_bytes(r) == clipboard::jpeg_of(rgb, to_width, to_height, 75),
{
    clipboard::lemma_raw_pixels(img, raw@);
    let n = to_width * to_height;
    let all = clipboard::without_alpha(small);
    assert(all.len() == n * 3);
    assert forall|i: int| 0 <= i < all.len() implies all[i] == rgb[i] by {
        assert(is_pixel_of(rgb, small, i / 3));
        assert(i == i / 3 * 3 + i % 3);
    }
    assert(all =~= rgb);
}

/// The three bytes of the pixel are the first three of its four.
pub open spec fn is_pixel_of(rgb: Seq<u8>, raw: Seq<u8>, k: int) -> bool {
    rgb[k * 3] == raw[k * 4] && rgb[k * 3 + 1] == raw[k * 4 + 1] && rgb[k * 3 + 2] == raw[k * 4 + 2]
}

} // verus!
