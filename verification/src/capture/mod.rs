//! Captured pixels: where they come from, how they are put together, and what
//! is known of them afterwards.

use vstd::prelude::*;

use crate::capture::frame::{crop, turn_left, turn_right, Rgba, RgbaImage};
use crate::text;

pub mod color_probe;
pub mod convert;
pub mod cursor;
pub mod ext_copy;
pub mod frame;
pub mod gdi;
pub mod hdr;
pub mod hdr_grab;
pub mod hdr_png;
pub mod kwin;
pub mod monitor;
pub mod pipewire_stream;
pub mod portal;
pub mod region;
pub mod screen;
pub mod wayland_chain;
pub mod wgc;
pub mod window;
pub mod x11_grab;

verus! {

/// What a capture shows.
#[derive(Clone, Copy, PartialEq, Eq, Structural, Debug)]
pub enum CaptureMode {
    FullScreen,
    Window,
    Region,
}

/// How a display is turned.
#[derive(Clone, Copy, PartialEq, Eq, Structural, Debug)]
pub enum MonitorRotation {
    Identity,
    Rotate90,
    Rotate180,
    Rotate270,
    Unknown,
}

/// The rotation that a display setting of 0, 1, 2 or 3 quarter turns stands for.
pub open spec fn rotation_of(setting: u32) -> MonitorRotation {
    if setting == 0 {
        MonitorRotation::Identity
    } else if setting == 1 {
        MonitorRotation::Rotate90
    } else if setting == 2 {
        MonitorRotation::Rotate180
    } else if setting == 3 {
        MonitorRotation::Rotate270
    } else {
        MonitorRotation::Unknown
    }
}

impl MonitorRotation {
    pub fn from_setting(setting: u32) -> (r: Self)
        ensures
            r == rotation_of(setting),
    {
        match setting {
            0 => MonitorRotation::Identity,
            1 => MonitorRotation::Rotate90,
            2 => MonitorRotation::Rotate180,
            3 => MonitorRotation::Rotate270,
            _ => MonitorRotation::Unknown,
        }
    }
}

/// A rectangle of the virtual desktop.
#[derive(Clone, Copy, PartialEq, Eq, Structural, Debug)]
pub struct Rectangle {
    pub x: i32,
    pub y: i32,
    pub width: u32,
    pub height: u32,
}

impl Rectangle {
    /// The point lies in the rectangle.
    pub open spec fn covers(self, x: int, y: int) -> bool {
        self.x <= x < self.x + self.width && self.y <= y < self.y + self.height
    }

    /// The two rectangles share a point.
    pub open spec fn meets(self, other: Rectangle) -> bool {
        &&& self.x < other.x + other.width
        &&& self.x + self.width > other.x
        &&& self.y < other.y + other.height
        &&& self.y + self.height > other.y
    }

    pub fn new(x: i32, y: i32, width: u32, height: u32) -> (r: Self)
        ensures
            r == (Rectangle { x, y, width, height }),
    {
        Rectangle { x, y, width, height }
    }

    /// The rectangle between two corners, whichever was dragged to first.
    pub fn normalize(start_x: i32, start_y: i32, end_x: i32, end_y: i32) -> (r: Self)
        ensures
            r.x == (if start_x <= end_x { start_x } else { end_x }),
            r.y == (if start_y <= end_y { start_y } else { end_y }),
            r.x + r.width == (if start_x <= end_x { end_x } else { start_x }),
            r.y + r.height == (if start_y <= end_y { end_y } else { start_y }),
    {
        let x: i32 = if start_x <= end_x { start_x } else { end_x };
        let y: i32 = if start_y <= end_y { start_y } else { end_y };
        let far_x: i32 = if start_x <= end_x { end_x } else { start_x };
        let far_y: i32 = if start_y <= end_y { end_y } else { start_y };
        let width: u32 = (far_x as i64 - x as i64) as u32;
        let height: u32 = (far_y as i64 - y as i64) as u32;
        Rectangle { x, y, width, height }
    }

    /// Whether the two rectangles share a point.
    pub fn overlaps(&self, other: &Rectangle) -> (r: bool)
        ensures
            r == self.meets(*other),
    {
        (self.x as i64) < other.x as i64 + other.width as i64 && self.x as i64 + self.width as i64
            > other.x as i64 && (self.y as i64) < other.y as i64 + other.height as i64
            && self.y as i64 + self.height as i64 > other.y as i64
    }
}

/// Two non-empty rectangles meet exactly where some point lies in both.
pub proof fn lemma_meets_is_a_shared_point(a: Rectangle, b: Rectangle)
    requires
        a.width > 0 && a.height > 0 && b.width > 0 && b.height > 0,
    ensures
        a.meets(b) <==> exists|x: int, y: int| a.covers(x, y) && b.covers(x, y),
{
    if a.meets(b) {
        let x = if a.x >= b.x { a.x as int } else { b.x as int };
        let y = if a.y >= b.y { a.y as int } else { b.y as int };
        assert(a.covers(x, y) && b.covers(x, y));
    }
}

/// A display.
#[derive(Clone, Debug)]
pub struct MonitorInfo {
    pub id: u32,
    pub name: String,
    pub x: i32,
    pub y: i32,
    pub width: u32,
    pub height: u32,
    pub is_primary: bool,
}

impl MonitorInfo {
    pub open spec fn spec_rect(&self) -> Rectangle {
        Rectangle { x: self.x, y: self.y, width: self.width, height: self.height }
    }

    /// The part of the virtual desktop that the display shows.
    pub fn rect(&self) -> (r: Rectangle)
        ensures
            r == self.spec_rect(),
    {
        Rectangle { x: self.x, y: self.y, width: self.width, height: self.height }
    }

    /// The point in the middle of the display.
    pub fn center(&self) -> (p: (i64, i64))
        ensures
            p.0 == self.x + self.width / 2,
            p.1 == self.y + self.height / 2,
    {
        (self.x as i64 + (self.width / 2) as i64, self.y as i64 + (self.height / 2) as i64)
    }
}

/// A window of another program.
#[derive(Clone, Debug)]
pub struct WindowInfo {
    pub id: u32,
    pub title: String,
    pub app_name: String,
    pub x: i32,
    pub y: i32,
    pub width: u32,
    pub height: u32,
}

// ---- switches in the environment ------------------------------------------------

/// A switch is on where its trimmed text is `1`, `true`, `TRUE` or `on`.
pub open spec fn switched_on(value: Option<Seq<char>>) -> bool {
    match value {
        Some(v) => {
            let t = text::trim(v);
            t == "1"@ || t == "true"@ || t == "TRUE"@ || t == "on"@
        },
        None => false,
    }
}

/// Whether an environment switch is on, given its text where it is set.
pub fn switch_enabled(value: Option<&str>) -> (r: bool)
    ensures
        r == switched_on(text::opt(value)),
{
    match value {
        None => false,
        Some(v) => {
            let t = text::trimmed(v);
            text::same(t.as_str(), "1") || text::same(t.as_str(), "true") || text::same(
                t.as_str(),
                "TRUE",
            ) || text::same(t.as_str(), "on")
        },
    }
}

// ---- black and transparent frames --------------------------------------------------

/// Every pixel of the frame is transparent.
pub open spec fn fully_transparent(img: RgbaImage) -> bool {
    forall|k: int| 0 <= k < img.pixels().len() ==> (#[trigger] img.pixels()[k]).a == 0
}

/// The pixel without transparency.
pub open spec fn opaque(p: Rgba) -> Rgba {
    Rgba { r: p.r, g: p.g, b: p.b, a: 255 }
}

/// Row `y` of the frame has no colour in it.
pub open spec fn black_row(img: RgbaImage, y: int) -> bool {
    forall|x: int| 0 <= x < img.spec_width() ==> (#[trigger] img.px(x, y)).is_black()
}

/// The frame is empty, or its first, middle and last row have no colour in
/// them.
pub open spec fn black_frame(img: RgbaImage) -> bool {
    ||| img.spec_width() == 0
    ||| img.spec_height() == 0
    ||| black_row(img, 0) && black_row(img, img.spec_height() as int / 2) && black_row(
        img,
        img.spec_height() - 1,
    )
}

/// Makes the frame opaque where no pixel of it has any alpha, and leaves it as
/// it is where one does.
pub fn ensure_opaque_if_fully_transparent(img: &mut RgbaImage)
    requires
        old(img).wf(),
    ensures
        final(img).wf(),
        final(img).spec_width() == old(img).spec_width(),
        final(img).spec_height() == old(img).spec_height(),
        !fully_transparent(*old(img)) ==> final(img).pixels() == old(img).pixels(),
        fully_transparent(*old(img)) ==> final(img).pixels() == old(img).pixels().map_values(
            |p: Rgba| opaque(p),
        ),
{
    if img.any_alpha() {
        return;
    }
    img.force_opaque();
}

fn row_is_black(img: &RgbaImage, y: u32) -> (r: bool)
    requires
        img.wf(),
        y < img.spec_height(),
    ensures
        r == black_row(*img, y as int),
{
    let w: u32 = img.width();
    let mut x: u32 = 0;
    while x < w
        invariant
            img.wf(),
            w == img.spec_width(),
            y < img.spec_height(),
            x <= w,
            forall|i: int| 0 <= i < x ==> (#[trigger] img.px(i, y as int)).is_black(),
        decreases w - x,
    {
        let p = img.get_pixel(x, y);
        if p.r != 0 || p.g != 0 || p.b != 0 {
            assert(!img.px(x as int, y as int).is_black());
            return false;
        }
        x = x + 1;
    }
    true
}

/// Whether the frame looks like a failed capture: no colour in its first,
/// middle and last row. The alpha does not count.
pub fn is_black_frame(img: &RgbaImage) -> (r: bool)
    requires
        img.wf(),
    ensures
        r == black_frame(*img),
{
    let h: u32 = img.height();
    if img.width() == 0 || h == 0 {
        return true;
    }
    row_is_black(img, 0) && row_is_black(img, h / 2) && row_is_black(img, h - 1)
}

// ---- one display ---------------------------------------------------------------------

/// How a captured frame is brought to the size that the display reports.
#[derive(Clone, Copy, PartialEq, Eq, Structural, Debug)]
pub enum Orientation {
    Keep,
    TurnRight,
    TurnLeft,
    TopHalf,
}

/// A frame of swapped sides comes from a turned display: a display turned by
/// 90 degrees is turned right, any other left. A frame of double height keeps
/// its top half. Any other frame is passed on as it is.
pub open spec fn orientation(
    iw: u32,
    ih: u32,
    expected_w: u32,
    expected_h: u32,
    rotation: MonitorRotation,
) -> Orientation {
    if iw == expected_w && ih == expected_h {
        Orientation::Keep
    } else if iw == expected_h && ih == expected_w {
        if rotation == MonitorRotation::Rotate90 {
            Orientation::TurnRight
        } else {
            Orientation::TurnLeft
        }
    } else if iw == expected_w && ih == expected_h * 2 {
        Orientation::TopHalf
    } else {
        Orientation::Keep
    }
}

/// `r` is `img` brought to the display's orientation.
pub open spec fn shows_oriented(
    r: RgbaImage,
    img: RgbaImage,
    expected_w: u32,
    expected_h: u32,
    rotation: MonitorRotation,
) -> bool {
    match orientation(img.spec_width(), img.spec_height(), expected_w, expected_h, rotation) {
        Orientation::Keep => r == img,
        Orientation::TurnRight => frame::shows_turned_right(r, img),
        Orientation::TurnLeft => frame::shows_turned_left(r, img),
        Orientation::TopHalf => frame::shows_crop(r, img, 0, 0, expected_w, expected_h),
    }
}

/// Brings a captured frame to the orientation that the display reports.
pub fn orient_captured_image(
    img: RgbaImage,
    expected_w: u32,
    expected_h: u32,
    rotation: MonitorRotation,
) -> (r: RgbaImage)
    requires
        img.wf(),
    ensures
        r.wf(),
        shows_oriented(r, img, expected_w, expected_h, rotation),
{
    let iw: u32 = img.width();
    let ih: u32 = img.height();
    if iw == expected_w && ih == expected_h {
        return img;
    }
    if iw == expected_h && ih == expected_w {
        return match rotation {
            MonitorRotation::Rotate90 => turn_right(&img),
            _ => turn_left(&img),
        };
    }
    if iw == expected_w && ih as u64 == expected_h as u64 * 2 {
        return crop(&img, 0, 0, iw, expected_h);
    }
    img
}

/// The frame without its transparency where it is fully transparent.
pub open spec fn settled(img: RgbaImage) -> Seq<Rgba> {
    if fully_transparent(img) {
        img.pixels().map_values(|p: Rgba| opaque(p))
    } else {
        img.pixels()
    }
}

/// Chooses between a display's frame and the plain second try that is made
/// when the first came back black: the second is taken where it shows
/// something. The frame taken is made opaque where it is fully transparent.
pub fn settle_monitor(img: RgbaImage, retry: Option<RgbaImage>) -> (r: RgbaImage)
    requires
        img.wf(),
        retry matches Some(g) ==> g.wf(),
    ensures
        r.wf(),
        ({
            let taken = match retry {
                Some(g) => if black_frame(img) && !black_frame(g) {
                    g
                } else {
                    img
                },
                None => img,
            };
            r.spec_width() == taken.spec_width() && r.spec_height() == taken.spec_height()
                && r.pixels() == settled(taken)
        }),
{
    let mut chosen = img;
    if let Some(g) = retry {
        if is_black_frame(&chosen) && !is_black_frame(&g) {
            chosen = g;
        }
    }
    ensure_opaque_if_fully_transparent(&mut chosen);
    chosen
}

/// A frame that was made opaque once stays as it is.
pub proof fn lemma_opaque_is_stable(img: RgbaImage, once: RgbaImage)
    requires
        img.wf(),
        once.pixels() == settled(img),
    ensures
        settled(once) == once.pixels(),
{
    if fully_transparent(img) && img.pixels().len() > 0 {
        assert(once.pixels()[0] == opaque(img.pixels()[0]));
        assert(!fully_transparent(once));
    } else if fully_transparent(img) {
        assert(settled(once) =~= once.pixels());
    }
}

// ---- laws ---------------------------------------------------------------------------------

/// The rectangle between two corners reaches from the one to the other,
/// whichever comes first.
pub proof fn lemma_dragging_back_is_the_same(
    a: (i32, i32),
    b: (i32, i32),
    there: Rectangle,
    back: Rectangle,
    x: int,
    y: int,
)
    requires
        call_ensures(Rectangle::normalize, (a.0, a.1, b.0, b.1), there),
        call_ensures(Rectangle::normalize, (b.0, b.1, a.0, a.1), back),
    ensures
        there == back,
        there.covers(x, y) <==> (a.0 <= x < b.0 || b.0 <= x < a.0) && (a.1 <= y < b.1 || b.1 <= y
            < a.1),
{
}

/// Two rectangles overlap as much as they are overlapped, and exactly where they
/// share a point.
pub proof fn lemma_overlap_is_a_shared_point(
    a: Rectangle,
    b: Rectangle,
    r: bool,
    q: bool,
)
    requires
        call_ensures(Rectangle::overlaps, (&a, &b), r),
        call_ensures(Rectangle::overlaps, (&b, &a), q),
        a.width > 0 && a.height > 0 && b.width > 0 && b.height > 0,
    ensures
        r == q,
        r <==> exists|x: int, y: int|
            a.x <= x < a.x + a.width && a.y <= y < a.y + a.height && b.x <= x < b.x + b.width && b.y
                <= y < b.y + b.height && a.covers(x, y),
{
    if r {
        let x = if a.x >= b.x { a.x as int } else { b.x as int };
        let y = if a.y >= b.y { a.y as int } else { b.y as int };
        assert(a.covers(x, y));
    }
}

/// The middle of a display is as far from its left edge as from its right one,
/// and from its upper edge as from its lower one, to within a pixel.
pub proof fn lemma_center_is_in_the_middle(m: MonitorInfo, p: (i64, i64))
    requires
        call_ensures(MonitorInfo::center, (&m,), p),
    ensures
        0 <= (m.x + m.width - p.0) - (p.0 - m.x) <= 1,
        0 <= (m.y + m.height - p.1) - (p.1 - m.y) <= 1,
{
}

/// A display shows what lies right of its left edge by less than its width, and
/// below its upper edge by less than its height.
pub proof fn lemma_display_covers_its_rectangle(m: MonitorInfo, r: Rectangle, x: int, y: int)
    requires
        call_ensures(MonitorInfo::rect, (&m,), r),
    ensures
        r.covers(x, y) <==> 0 <= x - m.x < m.width && 0 <= y - m.y < m.height,
{
}

/// A display setting counts quarter turns.
pub proof fn lemma_settings_count_quarter_turns(setting: u32, r: MonitorRotation)
    requires
        call_ensures(MonitorRotation::from_setting, (setting,), r),
    ensures
        r == MonitorRotation::Identity <==> setting * 90 == 0,
        r == MonitorRotation::Rotate90 <==> setting * 90 == 90,
        r == MonitorRotation::Rotate180 <==> setting * 90 == 180,
        r == MonitorRotation::Rotate270 <==> setting * 90 == 270,
{
}

/// A switch is on where its text is one of four, whatever white space stands
/// around it, and a switch that is not set is off.
pub proof fn lemma_switches_are_on_by_name(value: &str, t: String, r: bool, unset: bool)
    requires
        call_ensures(text::trimmed, (value,), t),
        call_ensures(switch_enabled, (Some(value),), r),
        call_ensures(switch_enabled, (None,), unset),
    ensures
        r <==> t@ == "1"@ || t@ == "true"@ || t@ == "TRUE"@ || t@ == "on"@,
        !unset,
{
}

/// Colour anywhere in the first, the middle or the last row shows that a capture
/// came through; a frame without any colour did not.
pub proof fn lemma_colour_in_three_rows_counts(img: RgbaImage, r: bool, x: int, y: int)
    requires
        img.wf(),
        call_ensures(is_black_frame, (&img,), r),
    ensures
        img.inside(x, y) && (y == 0 || y == img.spec_height() / 2 || y + 1 == img.spec_height()) && (
        img.px(x, y).r > 0 || img.px(x, y).g > 0 || img.px(x, y).b > 0) ==> !r,
        (forall|i: int, j: int|
            img.inside(i, j) ==> (#[trigger] img.px(i, j)).r == 0 && img.px(i, j).g == 0 && img.px(
                i,
                j,
            ).b == 0) ==> r,
        img.spec_width() == 0 || img.spec_height() == 0 ==> r,
{
    if forall|i: int, j: int|
        img.inside(i, j) ==> (#[trigger] img.px(i, j)).r == 0 && img.px(i, j).g == 0 && img.px(
            i,
            j,
        ).b == 0 {
        if img.spec_width() > 0 && img.spec_height() > 0 {
            let h = img.spec_height() as int;
            assert forall|i: int| 0 <= i < img.spec_width() implies (#[trigger] img.px(
                i,
                0,
            )).is_black() by {
                assert(img.inside(i, 0));
            }
            assert forall|i: int| 0 <= i < img.spec_width() implies (#[trigger] img.px(
                i,
                h / 2,
            )).is_black() by {
                assert(img.inside(i, h / 2));
            }
            assert forall|i: int| 0 <= i < img.spec_width() implies (#[trigger] img.px(
                i,
                h - 1,
            )).is_black() by {
                assert(img.inside(i, h - 1));
            }
        }
    }
}

/// A frame from a turned display is turned back: its top left corner comes to
/// the top right where the display is turned by 90 degrees, and to the bottom left
/// otherwise. The result has the sides of the display.
pub proof fn lemma_turned_frames_are_turned_back(
    img: RgbaImage,
    w: u32,
    h: u32,
    rotation: MonitorRotation,
    r: RgbaImage,
    x: int,
    y: int,
)
    requires
        img.wf(),
        call_ensures(orient_captured_image, (img, w, h, rotation), r),
        img.spec_width() == h,
        img.spec_height() == w,
        w != h,
        img.inside(x, y),
    ensures
        r.spec_width() == w,
        r.spec_height() == h,
        rotation == MonitorRotation::Rotate90 ==> r.px(w - 1 - y, x) == img.px(x, y),
        rotation != MonitorRotation::Rotate90 ==> r.px(y, h - 1 - x) == img.px(x, y),
{
    assert(r.inside(w - 1 - y, x));
    assert(r.inside(y, h - 1 - x));
}

/// A frame of the display's sides is kept. One of double height keeps its upper
/// half.
pub proof fn lemma_upright_frames_are_kept(
    img: RgbaImage,
    w: u32,
    h: u32,
    rotation: MonitorRotation,
    r: RgbaImage,
    x: int,
    y: int,
)
    requires
        img.wf(),
        call_ensures(orient_captured_image, (img, w, h, rotation), r),
        img.spec_width() == w,
        0 <= x < w,
        0 <= y < h,
    ensures
        img.spec_height() == h ==> r == img,
        img.spec_height() == h * 2 && w != h * 2 ==> r.spec_width() == w && r.spec_height() == h && r.px(x, y)
            == img.px(x, y),
{
    if img.spec_height() == h * 2 {
        assert(img.spec_height() != h);
        assert(r.inside(x, y));
    }
}

/// A frame that came back black gives way to a second that shows something, and
/// to no other. Colours stay as they are, and so does the alpha unless all of it
/// is nought.
pub proof fn lemma_second_frame_counts_where_it_shows_something(
    img: RgbaImage,
    retry: RgbaImage,
    first_black: bool,
    second_black: bool,
    taken: RgbaImage,
    r: RgbaImage,
    k: int,
)
    requires
        img.wf(),
        retry.wf(),
        call_ensures(is_black_frame, (&img,), first_black),
        call_ensures(is_black_frame, (&retry,), second_black),
        call_ensures(settle_monitor, (img, Some(retry)), r),
        first_black && !second_black ==> taken == retry,
        !first_black || second_black ==> taken == img,
        0 <= k < taken.pixels().len(),
    ensures
        r.pixels().len() == taken.pixels().len(),
        r.pixels()[k].r == taken.pixels()[k].r,
        r.pixels()[k].g == taken.pixels()[k].g,
        r.pixels()[k].b == taken.pixels()[k].b,
        taken.pixels()[k].a > 0 ==> r.pixels()[k].a == taken.pixels()[k].a,
        (forall|i: int| 0 <= i < taken.pixels().len() ==> (#[trigger] taken.pixels()[i]).a == 0)
            ==> r.pixels()[k].a == 255,
{
    if forall|i: int| 0 <= i < taken.pixels().len() ==> (#[trigger] taken.pixels()[i]).a == 0 {
        assert(fully_transparent(taken));
        assert(r.pixels()[k] == opaque(taken.pixels()[k]));
    }
}

} // verus!
