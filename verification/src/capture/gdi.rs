//! Displays and frames as the graphics device interface gives them.

use vstd::prelude::*;

use crate::capture::frame::ByteOrder;
use crate::capture::frame::RgbaImage;
use crate::capture::frame;
use crate::capture::MonitorInfo;

verus! {

/// The unit is the first of two that stand for one character.
pub open spec fn is_high(unit: u16) -> bool {
    0xD800 <= unit <= 0xDBFF
}

/// The unit is the second of two that stand for one character.
pub open spec fn is_low(unit: u16) -> bool {
    0xDC00 <= unit <= 0xDFFF
}

/// The text of code units. A unit that should be one of two and stands alone
/// comes out as the replacement character.
pub open spec fn utf16_text(units: Seq<u16>) -> Seq<char>
    decreases units.len(),
{
    if units.len() == 0 {
        Seq::empty()
    } else if !is_high(units[0]) && !is_low(units[0]) {
        seq![units[0] as char] + utf16_text(units.skip(1))
    } else if is_high(units[0]) && units.len() > 1 && is_low(units[1]) {
        seq![(0x10000 + (units[0] - 0xD800) * 0x400 + (units[1] - 0xDC00)) as char] + utf16_text(
            units.skip(2),
        )
    } else {
        seq!['\u{FFFD}'] + utf16_text(units.skip(1))
    }
}

/// `String::from_utf16_lossy`: the text of the units, with the replacement
/// character for each that should be one of two and stands alone.
#[verifier::external_body]
pub(crate) fn text_of_units(units: &[u16]) -> (r: String)
    ensures
        r@ == utf16_text(units@),
{
    String::from_utf16_lossy(units)
}

/// How many units stand before the first nought.
pub open spec fn name_len(units: Seq<u16>) -> int
    decreases units.len(),
{
    if units.len() == 0 || units[0] == 0 {
        0
    } else {
        1 + name_len(units.skip(1))
    }
}

/// The units before the first nought.
pub open spec fn name_part(units: Seq<u16>) -> Seq<u16> {
    units.take(name_len(units))
}

fn named_units(units: &[u16]) -> (r: Vec<u16>)
    ensures
        r@ == name_part(units@),
{
    let mut r: Vec<u16> = Vec::new();
    let mut i: usize = 0;
    assert(units@.skip(0) =~= units@);
    while i < units.len() && units[i] != 0
        invariant
            i <= units@.len(),
            r@ == units@.take(i as int),
            name_len(units@) == i + name_len(units@.skip(i as int)),
        decreases units@.len() - i,
    {
        assert(units@.skip(i as int).skip(1) =~= units@.skip(i + 1));
        r.push(units[i]);
        assert(r@ =~= units@.take(i + 1));
        i = i + 1;
    }
    r
}

/// A display as the system enumerates it.
#[derive(Debug)]
pub struct EnumeratedMonitor {
    pub left: i32,
    pub top: i32,
    pub right: i32,
    pub bottom: i32,
    pub primary: bool,
    pub device: Vec<u16>,
}

/// A difference of two places as a length of 32 bits.
pub open spec fn length_of(from: i32, to: i32) -> int {
    (to - from) % 0x1_0000_0000
}

fn length(from: i32, to: i32) -> (r: u32)
    ensures
        r == length_of(from, to),
{
    let d: i64 = to as i64 - from as i64;
    if d >= 0 {
        d as u32
    } else {
        (d + 0x1_0000_0000) as u32
    }
}

/// The entry tells of the display, which is numbered `id`.
pub open spec fn tells_of(i: MonitorInfo, id: int, m: EnumeratedMonitor) -> bool {
    &&& i.id == id
    &&& i.name@ == utf16_text(name_part(m.device@))
    &&& i.x == m.left
    &&& i.y == m.top
    &&& i.width == length_of(m.left, m.right)
    &&& i.height == length_of(m.top, m.bottom)
    &&& i.is_primary == m.primary
}

/// The displays that the system enumerated, numbered in their order.
pub fn list_monitors(found: &[EnumeratedMonitor]) -> (r: Vec<MonitorInfo>)
    requires
        found@.len() <= u32::MAX,
    ensures
        r@.len() == found@.len(),
        forall|i: int| 0 <= i < r@.len() ==> tells_of(#[trigger] r@[i], i, found@[i]),
{
    let mut r: Vec<MonitorInfo> = Vec::new();
    for i in 0..found.len()
        invariant
            found@.len() <= u32::MAX,
            r@.len() == i,
            forall|k: int| 0 <= k < i ==> tells_of(#[trigger] r@[k], k, found@[k]),
    {
        let m = &found[i];
        let units = named_units(&m.device);
        r.push(
            MonitorInfo {
                id: i as u32,
                name: text_of_units(&units),
                x: m.left,
                y: m.top,
                width: length(m.left, m.right),
                height: length(m.top, m.bottom),
                is_primary: m.primary,
            },
        );
        assert(tells_of(r@[i as int], i as int, found@[i as int]));
    }
    r
}

/// The frame in a bitmap of 32 bits to the pixel, whose alpha means nothing: an
/// opaque image.
pub fn read_bitmap(bits: &[u8], width: u32, height: u32) -> (img: RgbaImage)
    requires
        width * 4 <= usize::MAX,
        bits@.len() == width * height * 4,
    ensures
        frame::shows_rows(
            img,
            bits@,
            width,
            height,
            (width * 4) as usize,
            ByteOrder::Bgra,
            true,
        ),
{
    let n: usize = bits.len();
    let stride: usize = width as usize * 4;
    proof {
        if height > 0 {
            assert(width * height * 4 >= (height - 1) * stride + width * 4) by (nonlinear_arith)
                requires
                    height > 0,
                    stride == width * 4,
            ;
        }
        frame::lemma_rows_fit(n as nat, width, height, stride);
    }
    frame::image_from_rows(bits, width, height, stride, ByteOrder::Bgra, true)
}

/// The frame of a bitmap has the colours of its bytes, blue first, and is
/// opaque.
pub proof fn lemma_bitmaps_begin_with_blue(
    bits: &[u8],
    width: u32,
    height: u32,
    img: RgbaImage,
    x: int,
    y: int,
)
    requires
        call_ensures(read_bitmap, (bits, width, height), img),
        width * 4 <= usize::MAX,
        0 <= x < width,
        0 <= y < height,
    ensures
        img.spec_width() == width,
        img.spec_height() == height,
        ({
            let p = img.pixels()[y * width + x];
            let o = (y * width + x) * 4;
            &&& p.b == bits@[o]
            &&& p.g == bits@[o + 1]
            &&& p.r == bits@[o + 2]
            &&& p.a == 255
        }),
{
    assert(y * (width * 4) + x * 4 == (y * width + x) * 4) by (nonlinear_arith);
    assert(img.inside(x, y));
    let p = img.px(x, y);
}

/// A display reaches from its left to its right edge and from its top to its
/// bottom one, in the order and with the primary one as the system has them.
pub proof fn lemma_displays_reach_from_edge_to_edge(
    found: &[EnumeratedMonitor],
    r: Vec<MonitorInfo>,
    i: int,
)
    requires
        call_ensures(list_monitors, (found,), r),
        0 <= i < found@.len(),
        found@[i].left <= found@[i].right,
        found@[i].top <= found@[i].bottom,
    ensures
        r@.len() == found@.len(),
        r@[i].id == i,
        r@[i].x == found@[i].left,
        r@[i].x + r@[i].width == found@[i].right,
        r@[i].y == found@[i].top,
        r@[i].y + r@[i].height == found@[i].bottom,
        r@[i].is_primary == found@[i].primary,
{
    let m = r@[i];
}

proof fn lemma_nought_ends_the_name(units: Seq<u16>)
    requires
        forall|i: int| 0 <= i < units.len() ==> 0 < #[trigger] units[i] < 0xD800,
    ensures
        name_len(units.push(0)) == units.len(),
    decreases units.len(),
{
    if units.len() > 0 {
        assert(units.push(0)[0] == units[0]);
        assert(units.push(0).skip(1) =~= units.skip(1).push(0));
        lemma_nought_ends_the_name(units.skip(1));
    }
}

/// The name of a display that is all of plain characters is those characters, up
/// to the first nought.
pub proof fn lemma_plain_names_are_kept(units: Seq<u16>)
    requires
        forall|i: int| 0 <= i < units.len() ==> 0 < #[trigger] units[i] < 0xD800,
    ensures
        name_part(units.push(0)) == units,
        utf16_text(units).len() == units.len(),
        forall|i: int|
            0 <= i < units.len() ==> #[trigger] utf16_text(units)[i] as int == units[i] as int,
    decreases units.len(),
{
    if units.len() > 0 {
        lemma_plain_names_are_kept(units.skip(1));
        assert(units.push(0).skip(1) =~= units.skip(1).push(0));
        lemma_nought_ends_the_name(units);
        assert(name_part(units.push(0)) =~= units);
        let rest = utf16_text(units.skip(1));
        assert(utf16_text(units) == seq![units[0] as char] + rest);
        assert forall|i: int| 0 <= i < units.len() implies #[trigger] utf16_text(units)[i] as int
            == units[i] as int by {
            if i > 0 {
                assert(utf16_text(units)[i] == rest[i - 1]);
                assert(rest[i - 1] as int == units.skip(1)[i - 1] as int);
            }
        }
    } else {
        assert(name_part(units.push(0)) =~= units);
    }
}

} // verus!
