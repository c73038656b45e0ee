//! Images in the bytes of files, and images that come back from the editor.

use vstd::prelude::*;

use crate::capture::frame;
use crate::capture::frame::RgbaImage;
use crate::clipboard;
use crate::clipboard::CopyFault;

verus! {

/// The image in the bytes of a file, by the `image` crate: its width, its height
/// and its pixels, four bytes to each. Nothing where the bytes are no image that
/// can be read.
pub uninterp spec fn decoded_image(bytes: Seq<u8>) -> Option<(u32, u32, Seq<u8>)>;

pub open spec fn parts(r: Option<(u32, u32, Vec<u8>)>) -> Option<(u32, u32, Seq<u8>)> {
    match r {
        Some(t) => Some((t.0, t.1, t.2@)),
        None => None,
    }
}

/// The buffer holds four bytes for each pixel.
pub open spec fn is_full(r: Option<(u32, u32, Vec<u8>)>) -> bool {
    r matches Some(t) ==> t.2@.len() == t.0 * t.1 * 4
}

/// `image::load_from_memory` and `into_rgba8`: the image in the bytes, a function
/// of them alone, with four bytes for each pixel.
#[verifier::external_body]
fn decode_image(bytes: &[u8]) -> (r: Option<(u32, u32, Vec<u8>)>)
    ensures
        parts(r) == decoded_image(bytes@),
        is_full(r),
{
    let img = image::load_from_memory(bytes).ok()?.into_rgba8();
    Some((img.width(), img.height(), img.into_raw()))
}

/// The image in the bytes of a file whose name tells the format, by the `image`
/// crate, as above. Nothing where the name tells no format, or the bytes are no
/// such image.
pub uninterp spec fn decoded_for_name(bytes: Seq<u8>, name: Seq<char>) -> Option<
    (u32, u32, Seq<u8>),
>;

/// `image::ImageFormat::from_path`, `image::load_from_memory_with_format` and
/// `into_rgba8`: the image in the bytes, a function of them and of the name
/// alone, with four bytes for each pixel.
#[verifier::external_body]
fn decode_for_name(bytes: &[u8], name: &str) -> (r: Option<(u32, u32, Vec<u8>)>)
    ensures
        parts(r) == decoded_for_name(bytes@, name@),
        is_full(r),
{
    let format = image::ImageFormat::from_path(name).ok()?;
    let img = image::load_from_memory_with_format(bytes, format).ok()?.into_rgba8();
    Some((img.width(), img.height(), img.into_raw()))
}

/// The image shows what was decoded.
pub open spec fn shows(r: Option<RgbaImage>, decoded: Option<(u32, u32, Seq<u8>)>) -> bool {
    match decoded {
        None => r is None,
        Some(t) => r matches Some(img) && img.wf() && img.spec_width() == t.0
            && img.spec_height() == t.1 && frame::packs(t.2, img),
    }
}

/// The image in the bytes of a file of the name, where they hold one.
pub fn read_picture(bytes: &[u8], name: &str) -> (r: Option<RgbaImage>)
    ensures
        shows(r, decoded_for_name(bytes@, name@)),
{
    match decode_for_name(bytes, name) {
        None => None,
        Some(t) => frame::from_raw(t.0, t.1, &t.2),
    }
}

/// Why an edited image does not go on the clipboard.
#[derive(Clone, Copy, PartialEq, Eq, Structural, Debug)]
pub enum EditedFault {
    NotAnImage,
    Clipboard(CopyFault),
}

/// The bytes of an edited image as they go on the clipboard, where it does.
pub fn copy_edited_image_to_clipboard(bytes: &[u8]) -> (r: Result<Vec<u8>, EditedFault>)
    ensures
        match decoded_image(bytes@) {
            None => r matches Err(e) && e == EditedFault::NotAnImage,
            Some(t) => match clipboard::size_fault(t.0, t.1) {
                Some(f) => r matches Err(e) && e == EditedFault::Clipboard(f),
                None => r matches Ok(raw) && raw@ == t.2,
            },
        },
{
    match decode_image(bytes) {
        None => Err(EditedFault::NotAnImage),
        Some(t) => match clipboard::check_image_size(t.0, t.1) {
            Err(f) => Err(EditedFault::Clipboard(f)),
            Ok(()) => Ok(t.2),
        },
    }
}

/// The edited image that is uploaded, where the bytes hold one.
pub fn upload_edited_image(bytes: &[u8]) -> (r: Option<RgbaImage>)
    ensures
        shows(r, decoded_image(bytes@)),
{
    match decode_image(bytes) {
        None => None,
        Some(t) => frame::from_raw(t.0, t.1, &t.2),
    }
}

// ---- laws --------------------------------------------------------------------------------------

/// A picture that was read has the colours of its bytes, red first.
pub proof fn lemma_read_pictures_begin_with_red(
    bytes: &[u8],
    name: &str,
    img: RgbaImage,
    w: u32,
    h: u32,
    raw: Seq<u8>,
    k: int,
)
    requires
        call_ensures(read_picture, (bytes, name), Some(img)),
        decoded_for_name(bytes@, name@) == Some((w, h, raw)),
        0 <= k < img.pixels().len(),
    ensures
        img.spec_width() == w && img.spec_height() == h,
        img.pixels()[k].r == raw[k * 4],
        img.pixels()[k].g == raw[k * 4 + 1],
        img.pixels()[k].b == raw[k * 4 + 2],
        img.pixels()[k].a == raw[k * 4 + 3],
{
    assert(frame::pixel_of(raw, k) == img.pixels()[k]);
}

/// An edited image that is uploaded has the colours of its bytes, red first; bytes
/// that are no image are not uploaded.
pub proof fn lemma_edited_images_begin_with_red(
    bytes: &[u8],
    r: Option<RgbaImage>,
    img: RgbaImage,
    w: u32,
    h: u32,
    raw: Seq<u8>,
    k: int,
)
    requires
        call_ensures(upload_edited_image, (bytes,), r),
    ensures
        r is Some <==> decoded_image(bytes@) is Some,
        r == Some(img) && decoded_image(bytes@) == Some((w, h, raw)) && 0 <= k < img.pixels().len()
            ==> img.spec_width() == w && img.spec_height() == h && img.pixels()[k].r == raw[k * 4]
            && img.pixels()[k].g == raw[k * 4 + 1] && img.pixels()[k].b == raw[k * 4 + 2]
            && img.pixels()[k].a == raw[k * 4 + 3],
{
    if r == Some(img) && decoded_image(bytes@) == Some((w, h, raw)) && 0 <= k < img.pixels().len() {
        assert(frame::pixel_of(raw, k) == img.pixels()[k]);
    }
}

/// What goes on the clipboard are the bytes of the edited image, where the
/// clipboard takes an image of its size.
pub proof fn lemma_edited_image_is_copied_as_it_is(
    bytes: &[u8],
    w: u32,
    h: u32,
    raw: Seq<u8>,
    r: Result<Vec<u8>, EditedFault>,
    size: Result<(), CopyFault>,
)
    requires
        decoded_image(bytes@) == Some((w, h, raw)),
        call_ensures(copy_edited_image_to_clipboard, (bytes,), r),
        call_ensures(clipboard::check_image_size, (w, h), size),
    ensures
        size is Ok ==> (r matches Ok(v) && v@ == raw),
        size matches Err(f) ==> r == Err::<Vec<u8>, EditedFault>(EditedFault::Clipboard(f)),
{
}

} // verus!
