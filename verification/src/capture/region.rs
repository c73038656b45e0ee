//! Captures of a rectangle of the virtual desktop, put together from the
//! displays that it touches.

use vstd::prelude::*;

use crate::capture::frame::{crop, paste, Rgba, RgbaImage};
use crate::capture::{frame, MonitorInfo, Rectangle};

verus! {

/// What is left of a rectangle once it is laid over a frame.
#[derive(Clone, Copy, PartialEq, Eq, Structural, Debug)]
pub struct Crop {
    pub x: u32,
    pub y: u32,
    pub width: u32,
    pub height: u32,
}

/// The start of a side that begins at `at` when the frame begins at `origin`:
/// a side that begins before the frame starts at its edge.
pub open spec fn side_start(at: int, origin: int) -> int {
    if at >= origin {
        at - origin
    } else {
        0
    }
}

/// How much of a side of `len` pixels is left of a frame of `total` pixels
/// when it starts at `start`.
pub open spec fn side_len(len: int, start: int, total: int) -> int {
    let left = if total >= start {
        total - start
    } else {
        0
    };
    if len <= left {
        len
    } else {
        left
    }
}

/// The part of a frame that a rectangle of the desktop shows, where the
/// frame's top left pixel is the desktop's point `origin`. `None` where
/// nothing is left.
pub open spec fn crop_of(
    rect: Rectangle,
    origin: (i32, i32),
    width: u32,
    height: u32,
) -> Option<Crop> {
    let x = side_start(rect.x as int, origin.0 as int);
    let y = side_start(rect.y as int, origin.1 as int);
    let w = side_len(rect.width as int, x, width as int);
    let h = side_len(rect.height as int, y, height as int);
    if w == 0 || h == 0 {
        None
    } else {
        Some(Crop { x: x as u32, y: y as u32, width: w as u32, height: h as u32 })
    }
}

/// The part of a frame of `width` by `height` pixels that a rectangle of the
/// desktop shows.
pub fn crop_region(rect: Rectangle, origin: (i32, i32), width: u32, height: u32) -> (r: Option<
    Crop,
>)
    ensures
        r == crop_of(rect, origin, width, height),
{
    let x: u32 = if rect.x >= origin.0 { (rect.x as i64 - origin.0 as i64) as u32 } else { 0 };
    let y: u32 = if rect.y >= origin.1 { (rect.y as i64 - origin.1 as i64) as u32 } else { 0 };
    let left: u32 = if width >= x { width - x } else { 0 };
    let below: u32 = if height >= y { height - y } else { 0 };
    let w: u32 = if rect.width <= left { rect.width } else { left };
    let h: u32 = if rect.height <= below { rect.height } else { below };
    if w == 0 || h == 0 {
        None
    } else {
        Some(Crop { x, y, width: w, height: h })
    }
}

/// What is left of a rectangle lies inside the frame and is not empty.
pub proof fn lemma_crop_lies_inside(rect: Rectangle, origin: (i32, i32), width: u32, height: u32)
    ensures
        crop_of(rect, origin, width, height) matches Some(c) ==> {
            &&& c.x + c.width <= width
            &&& c.y + c.height <= height
            &&& 0 < c.width <= rect.width
            &&& 0 < c.height <= rect.height
        },
{
}

// ---- the virtual desktop --------------------------------------------------------------

/// The smallest rectangle that holds every display: the left and top edge,
/// and the point behind the right and bottom one.
#[derive(Clone, Copy, PartialEq, Eq, Structural, Debug)]
pub struct Desktop {
    pub min_x: i64,
    pub min_y: i64,
    pub max_x: i64,
    pub max_y: i64,
}

impl Desktop {
    /// The display lies on the desktop.
    pub open spec fn holds(self, m: MonitorInfo) -> bool {
        &&& self.min_x <= m.x && m.x + m.width <= self.max_x
        &&& self.min_y <= m.y && m.y + m.height <= self.max_y
    }

    /// Each edge of the desktop is the edge of a display.
    pub open spec fn tight(self, monitors: Seq<MonitorInfo>) -> bool {
        &&& exists|i: int| 0 <= i < monitors.len() && (#[trigger] monitors[i]).x == self.min_x
        &&& exists|i: int| 0 <= i < monitors.len() && (#[trigger] monitors[i]).y == self.min_y
        &&& exists|i: int|
            0 <= i < monitors.len() && (#[trigger] monitors[i]).x + monitors[i].width == self.max_x
        &&& exists|i: int|
            0 <= i < monitors.len() && (#[trigger] monitors[i]).y + monitors[i].height == self.max_y
    }

    /// The desktop of the displays.
    pub open spec fn spans(self, monitors: Seq<MonitorInfo>) -> bool {
        &&& self.tight(monitors)
        &&& forall|i: int| 0 <= i < monitors.len() ==> self.holds(#[trigger] monitors[i])
    }

    pub open spec fn spec_width(self) -> int {
        self.max_x - self.min_x
    }

    pub open spec fn spec_height(self) -> int {
        self.max_y - self.min_y
    }
}

/// The desktop of one or more displays.
pub fn desktop_of(monitors: &[MonitorInfo]) -> (d: Desktop)
    requires
        monitors@.len() > 0,
    ensures
        d.spans(monitors@),
        0 <= d.spec_width() <= 0x2_0000_0000,
        0 <= d.spec_height() <= 0x2_0000_0000,
{
    let m = &monitors[0];
    let mut d = Desktop {
        min_x: m.x as i64,
        min_y: m.y as i64,
        max_x: m.x as i64 + m.width as i64,
        max_y: m.y as i64 + m.height as i64,
    };
    let ghost mut wit: (int, int, int, int) = (0, 0, 0, 0);
    for i in 1..monitors.len()
        invariant
            1 <= i <= monitors@.len(),
            0 <= wit.0 < i && 0 <= wit.1 < i && 0 <= wit.2 < i && 0 <= wit.3 < i,
            monitors@[wit.0].x == d.min_x,
            monitors@[wit.1].y == d.min_y,
            monitors@[wit.2].x + monitors@[wit.2].width == d.max_x,
            monitors@[wit.3].y + monitors@[wit.3].height == d.max_y,
            forall|j: int| 0 <= j < i ==> d.holds(#[trigger] monitors@[j]),
    {
        let m = &monitors[i];
        if (m.x as i64) < d.min_x {
            d.min_x = m.x as i64;
            proof {
                wit.0 = i as int;
            }
        }
        if (m.y as i64) < d.min_y {
            d.min_y = m.y as i64;
            proof {
                wit.1 = i as int;
            }
        }
        if m.x as i64 + m.width as i64 > d.max_x {
            d.max_x = m.x as i64 + m.width as i64;
            proof {
                wit.2 = i as int;
            }
        }
        if m.y as i64 + m.height as i64 > d.max_y {
            d.max_y = m.y as i64 + m.height as i64;
            proof {
                wit.3 = i as int;
            }
        }
    }
    assert(d.holds(monitors@[0]));
    d
}

/// The displays have one desktop only.
pub proof fn lemma_desktop_is_unique(a: Desktop, b: Desktop, monitors: Seq<MonitorInfo>)
    requires
        a.spans(monitors),
        b.spans(monitors),
    ensures
        a == b,
{
    let i = choose|i: int| 0 <= i < monitors.len() && (#[trigger] monitors[i]).x == a.min_x;
    let j = choose|j: int| 0 <= j < monitors.len() && (#[trigger] monitors[j]).x == b.min_x;
    assert(b.holds(monitors[i]) && a.holds(monitors[j]));
    let i = choose|i: int| 0 <= i < monitors.len() && (#[trigger] monitors[i]).y == a.min_y;
    let j = choose|j: int| 0 <= j < monitors.len() && (#[trigger] monitors[j]).y == b.min_y;
    assert(b.holds(monitors[i]) && a.holds(monitors[j]));
    let i = choose|i: int|
        0 <= i < monitors.len() && (#[trigger] monitors[i]).x + monitors[i].width == a.max_x;
    let j = choose|j: int|
        0 <= j < monitors.len() && (#[trigger] monitors[j]).x + monitors[j].width == b.max_x;
    assert(b.holds(monitors[i]) && a.holds(monitors[j]));
    let i = choose|i: int|
        0 <= i < monitors.len() && (#[trigger] monitors[i]).y + monitors[i].height == a.max_y;
    let j = choose|j: int|
        0 <= j < monitors.len() && (#[trigger] monitors[j]).y + monitors[j].height == b.max_y;
    assert(b.holds(monitors[i]) && a.holds(monitors[j]));
}

// ---- the capture -----------------------------------------------------------------------

/// Why a region could not be captured.
#[derive(Clone, Copy, PartialEq, Eq, Structural, Debug)]
pub enum RegionError {
    NoMonitors,
    InvalidDimensions,
}

impl RegionError {
    pub open spec fn spec_message(self) -> Seq<char> {
        match self {
            RegionError::NoMonitors => "No monitors found"@,
            RegionError::InvalidDimensions => "Invalid region dimensions"@,
        }
    }

    /// The error in words.
    pub fn message(&self) -> (s: &'static str)
        ensures
            s@ == self.spec_message(),
    {
        match self {
            RegionError::NoMonitors => "No monitors found",
            RegionError::InvalidDimensions => "Invalid region dimensions",
        }
    }
}

/// A capture of a rectangle of the desktop.
#[derive(Debug)]
pub struct RegionCapture {
    region: Rectangle,
}

/// The bytes of the whole desktop can be addressed.
pub open spec fn desktop_fits(monitors: Seq<MonitorInfo>) -> bool {
    forall|d: Desktop| #[trigger]
        d.spans(monitors) ==> d.spec_width() <= u32::MAX && d.spec_height() <= u32::MAX
            && d.spec_width() * d.spec_height() * 4 <= usize::MAX
}

/// Whether the bytes of the whole desktop can be addressed.
pub fn desktop_is_addressable(monitors: &[MonitorInfo]) -> (r: bool)
    ensures
        r == desktop_fits(monitors@),
{
    if monitors.len() == 0 {
        assert(forall|d: Desktop| !#[trigger] d.spans(monitors@));
        return true;
    }
    let d = desktop_of(monitors);
    let width: i64 = d.max_x - d.min_x;
    let height: i64 = d.max_y - d.min_y;
    assert(d.spans(monitors@));
    proof {
        assert forall|e: Desktop| #[trigger] e.spans(monitors@) implies e == d by {
            lemma_desktop_is_unique(e, d, monitors@);
        }
    }
    if width > u32::MAX as i64 || height > u32::MAX as i64 {
        return false;
    }
    let area: u64 = frame::area(width as u32, height as u32);
    area <= (usize::MAX / 4) as u64
}

/// Shot `k` is part of the picture: its display meets the region, it was
/// taken, and it fits the place of its display.
pub open spec fn used(
    region: Rectangle,
    d: Desktop,
    monitors: Seq<MonitorInfo>,
    shots: Seq<Option<RgbaImage>>,
    k: int,
) -> bool {
    &&& monitors[k].spec_rect().meets(region)
    &&& shots[k] matches Some(img) && monitors[k].x - d.min_x + img.spec_width() <= d.spec_width()
        && monitors[k].y - d.min_y + img.spec_height() <= d.spec_height()
}

/// The desktop's pixel at (`i`, `j`) after the first `n` displays were pasted:
/// that of the last shot that covers it, and transparent where none does.
pub open spec fn desktop_px(
    region: Rectangle,
    d: Desktop,
    monitors: Seq<MonitorInfo>,
    shots: Seq<Option<RgbaImage>>,
    n: int,
    i: int,
    j: int,
) -> Rgba
    decreases n,
{
    if n <= 0 {
        Rgba { r: 0, g: 0, b: 0, a: 0 }
    } else {
        let k = n - 1;
        let x = i - (monitors[k].x - d.min_x);
        let y = j - (monitors[k].y - d.min_y);
        if used(region, d, monitors, shots, k) && shots[k]->0.inside(x, y) {
            shots[k]->0.px(x, y)
        } else {
            desktop_px(region, d, monitors, shots, n - 1, i, j)
        }
    }
}

impl RegionCapture {
    pub closed spec fn spec_region(&self) -> Rectangle {
        self.region
    }

    pub fn new(region: Rectangle) -> (r: Self)
        ensures
            r.spec_region() == region,
    {
        RegionCapture { region }
    }

    /// The capture of the rectangle between two corners.
    pub fn from_coords(start_x: i32, start_y: i32, end_x: i32, end_y: i32) -> (r: Self)
        ensures
            r.spec_region().x == (if start_x <= end_x { start_x } else { end_x }),
            r.spec_region().y == (if start_y <= end_y { start_y } else { end_y }),
            r.spec_region().x + r.spec_region().width == (if start_x <= end_x {
                end_x
            } else {
                start_x
            }),
            r.spec_region().y + r.spec_region().height == (if start_y <= end_y {
                end_y
            } else {
                start_y
            }),
    {
        RegionCapture { region: Rectangle::normalize(start_x, start_y, end_x, end_y) }
    }

    pub fn region(&self) -> (r: &Rectangle)
        ensures
            *r == self.spec_region(),
    {
        &self.region
    }

    /// Whether the display has a part in the capture: the others are not even
    /// captured.
    pub fn wants(&self, monitor: &MonitorInfo) -> (r: bool)
        ensures
            r == monitor.spec_rect().meets(self.spec_region()),
    {
        monitor.rect().overlaps(&self.region)
    }

    /// Puts the region together from the displays' shots, one for each
    /// display: `None` where the display was left out or could not be captured.
    pub fn compose(&self, monitors: &[MonitorInfo], shots: &[Option<RgbaImage>]) -> (r: Result<
        RgbaImage,
        RegionError,
    >)
        requires
            shots@.len() == monitors@.len(),
            desktop_fits(monitors@),
            forall|k: int| 0 <= k < shots@.len() ==> (#[trigger] shots@[k] matches Some(img)
                ==> img.wf()),
        ensures
            r == Err::<RgbaImage, RegionError>(RegionError::NoMonitors) <==> monitors@.len() == 0,
            forall|d: Desktop| #[trigger]
                d.spans(monitors@) ==> match crop_of(
                    self.spec_region(),
                    (d.min_x as i32, d.min_y as i32),
                    d.spec_width() as u32,
                    d.spec_height() as u32,
                ) {
                    None => r == Err::<RgbaImage, RegionError>(RegionError::InvalidDimensions),
                    Some(c) => r matches Ok(img) && img.wf() && img.spec_width() == c.width
                        && img.spec_height() == c.height && forall|i: int, j: int|
                        #![trigger img.px(i, j)]
                        img.inside(i, j) ==> img.px(i, j) == desktop_px(
                            self.spec_region(),
                            d,
                            monitors@,
                            shots@,
                            monitors@.len() as int,
                            c.x + i,
                            c.y + j,
                        ),
                },
    {
        if monitors.len() == 0 {
            assert(forall|d: Desktop| !#[trigger] d.spans(monitors@));
            return Err(RegionError::NoMonitors);
        }
        let d = desktop_of(monitors);
        assert(d.spans(monitors@));
        proof {
            assert forall|e: Desktop| #[trigger] e.spans(monitors@) implies e == d by {
                lemma_desktop_is_unique(e, d, monitors@);
            }
        }
        let width: u32 = (d.max_x - d.min_x) as u32;
        let height: u32 = (d.max_y - d.min_y) as u32;
        let region = self.region;
        let mut combined = RgbaImage::from_pixel(
            width,
            height,
            Rgba { r: 0, g: 0, b: 0, a: 0 },
        ).unwrap();
        proof {
            assert forall|i: int, j: int|
                #![trigger combined.px(i, j)]
                combined.inside(i, j) implies combined.px(i, j) == desktop_px(
                region,
                d,
                monitors@,
                shots@,
                0,
                i,
                j,
            ) by {
                frame::lemma_at(width as int, height as int, i, j);
            }
        }
        let n: usize = monitors.len();
        let mut k: usize = 0;
        while k < n
            invariant
                n == monitors@.len(),
                shots@.len() == n,
                k <= n,
                d.spans(monitors@),
                width == d.spec_width(),
                height == d.spec_height(),
                region == self.spec_region(),
                combined.wf(),
                combined.spec_width() == width,
                combined.spec_height() == height,
                forall|i: int|
                    0 <= i < shots@.len() ==> (#[trigger] shots@[i] matches Some(img)
                        ==> img.wf()),
                forall|i: int, j: int|
                    #![trigger combined.px(i, j)]
                    combined.inside(i, j) ==> combined.px(i, j) == desktop_px(
                        region,
                        d,
                        monitors@,
                        shots@,
                        k as int,
                        i,
                        j,
                    ),
            decreases n - k,
        {
            let ghost before = combined;
            let m = &monitors[k];
            assert(d.holds(monitors@[k as int]));
            if m.rect().overlaps(&region) {
                if let Some(img) = &shots[k] {
                    assert(shots@[k as int] == Some(*img));
                    let x: u32 = (m.x as i64 - d.min_x) as u32;
                    let y: u32 = (m.y as i64 - d.min_y) as u32;
                    let ok = paste(&mut combined, img, x, y);
                    proof {
                        assert(ok == used(region, d, monitors@, shots@, k as int));
                        assert forall|i: int, j: int|
                            #![trigger combined.px(i, j)]
                            combined.inside(i, j) implies combined.px(i, j) == desktop_px(
                            region,
                            d,
                            monitors@,
                            shots@,
                            k + 1,
                            i,
                            j,
                        ) by {
                            assert(before.inside(i, j));
                            assert(before.px(i, j) == desktop_px(
                                region,
                                d,
                                monitors@,
                                shots@,
                                k as int,
                                i,
                                j,
                            ));
                        }
                    }
                }
            }
            proof {
                assert forall|i: int, j: int|
                    #![trigger combined.px(i, j)]
                    combined.inside(i, j) implies combined.px(i, j) == desktop_px(
                    region,
                    d,
                    monitors@,
                    shots@,
                    k + 1,
                    i,
                    j,
                ) by {
                    if !used(region, d, monitors@, shots@, k as int) {
                        assert(combined == before);
                    }
                }
            }
            k = k + 1;
        }
        match crop_region(region, (d.min_x as i32, d.min_y as i32), width, height) {
            None => Err(RegionError::InvalidDimensions),
            Some(c) => {
                proof {
                    lemma_crop_lies_inside(
                        region,
                        (d.min_x as i32, d.min_y as i32),
                        width,
                        height,
                    );
                }
                let img = crop(&combined, c.x, c.y, c.width, c.height);
                proof {
                    assert forall|i: int, j: int|
                        #![trigger img.px(i, j)]
                        img.inside(i, j) implies img.px(i, j) == desktop_px(
                        region,
                        d,
                        monitors@,
                        shots@,
                        n as int,
                        c.x + i,
                        c.y + j,
                    ) by {
                        assert(combined.inside(c.x + i, c.y + j));
                        assert(img.px(i, j) == combined.px(c.x + i, c.y + j));
                    }
                }
                Ok(img)
            },
        }
    }
}

/// A rectangle that lies inside a frame is cut out whole, as far from the frame's
/// corner as it is from the frame's origin.
pub proof fn lemma_inner_rectangle_is_cut_whole(
    rect: Rectangle,
    origin: (i32, i32),
    width: u32,
    height: u32,
    r: Option<Crop>,
)
    requires
        call_ensures(crop_region, (rect, origin, width, height), r),
        origin.0 <= rect.x && rect.x + rect.width <= origin.0 + width,
        origin.1 <= rect.y && rect.y + rect.height <= origin.1 + height,
        rect.width > 0,
        rect.height > 0,
    ensures
        r matches Some(c) && c.x == rect.x - origin.0 && c.y == rect.y - origin.1 && c.width
            == rect.width && c.height == rect.height,
{
}

/// A rectangle that reaches over the frame's right or bottom edge is cut at it;
/// one that lies behind it leaves nothing.
pub proof fn lemma_rectangle_is_cut_at_the_edge(
    rect: Rectangle,
    origin: (i32, i32),
    width: u32,
    height: u32,
    r: Option<Crop>,
)
    requires
        call_ensures(crop_region, (rect, origin, width, height), r),
        rect.x >= origin.0,
        rect.y >= origin.1,
    ensures
        r is Some <==> rect.width > 0 && rect.height > 0 && rect.x < origin.0 + width && rect.y
            < origin.1 + height,
        r matches Some(c) ==> c.x == rect.x - origin.0 && c.y == rect.y - origin.1 && (c.width
            == rect.width || c.x + c.width == width) && (c.height == rect.height || c.y + c.height
            == height),
{
}

/// A pixel of a captured region shows what the display shows that lies there: on
/// a desktop of displays that do not overlap, whose shots all have the size of
/// their displays, each pixel is that of its display.
pub proof fn lemma_region_shows_its_display(
    region: Rectangle,
    d: Desktop,
    monitors: Seq<MonitorInfo>,
    shots: Seq<Option<RgbaImage>>,
    n: int,
    k: int,
    i: int,
    j: int,
)
    requires
        d.spans(monitors),
        0 <= k < n <= monitors.len(),
        shots.len() == monitors.len(),
        monitors[k].spec_rect().meets(region),
        shots[k] matches Some(img) && img.spec_width() == monitors[k].width && img.spec_height()
            == monitors[k].height && img.inside(
            i - (monitors[k].x - d.min_x),
            j - (monitors[k].y - d.min_y),
        ),
        forall|m: int|
            k < m < n ==> (#[trigger] shots[m] matches Some(img) ==> !img.inside(
                i - (monitors[m].x - d.min_x),
                j - (monitors[m].y - d.min_y),
            )),
    ensures
        desktop_px(region, d, monitors, shots, n, i, j) == shots[k]->0.px(
            i - (monitors[k].x - d.min_x),
            j - (monitors[k].y - d.min_y),
        ),
    decreases n,
{
    assert(d.holds(monitors[k]));
    if n - 1 > k {
        let s = shots[n - 1];
        lemma_region_shows_its_display(region, d, monitors, shots, n - 1, k, i, j);
    }
}

/// What no display that has a part in the region shows is transparent.
pub proof fn lemma_gaps_are_transparent(
    region: Rectangle,
    d: Desktop,
    monitors: Seq<MonitorInfo>,
    shots: Seq<Option<RgbaImage>>,
    n: int,
    i: int,
    j: int,
)
    requires
        0 <= n <= monitors.len(),
        forall|m: int|
            0 <= m < n ==> (#[trigger] shots[m] matches Some(img) ==> !img.inside(
                i - (monitors[m].x - d.min_x),
                j - (monitors[m].y - d.min_y),
            )),
    ensures
        desktop_px(region, d, monitors, shots, n, i, j) == (Rgba { r: 0, g: 0, b: 0, a: 0 }),
    decreases n,
{
    if n > 0 {
        let s = shots[n - 1];
        lemma_gaps_are_transparent(region, d, monitors, shots, n - 1, i, j);
    }
}

} // verus!
