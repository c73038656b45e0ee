//! Captures of one display: which one is meant.

use vstd::prelude::*;

use crate::capture::MonitorInfo;

verus! {

/// A capture of one display.
#[derive(Clone, Copy, PartialEq, Eq, Structural, Debug)]
pub struct ScreenCapture {
    monitor: Option<u32>,
}

/// Why no display is meant.
#[derive(Clone, Copy, PartialEq, Eq, Structural, Debug)]
pub enum ScreenError {
    NoMonitor,
}

/// The display shows the point.
pub open spec fn shows_point(m: MonitorInfo, x: i32, y: i32) -> bool {
    m.x <= x < m.x + m.width && m.y <= y < m.y + m.height
}

/// The first display that shows the point.
pub open spec fn first_at(monitors: Seq<MonitorInfo>, x: i32, y: i32) -> Option<u32>
    decreases monitors.len(),
{
    if monitors.len() == 0 {
        None
    } else if shows_point(monitors[0], x, y) {
        Some(monitors[0].id)
    } else {
        first_at(monitors.skip(1), x, y)
    }
}

/// The first primary display.
pub open spec fn first_primary(monitors: Seq<MonitorInfo>) -> Option<u32>
    decreases monitors.len(),
{
    if monitors.len() == 0 {
        None
    } else if monitors[0].is_primary {
        Some(monitors[0].id)
    } else {
        first_primary(monitors.skip(1))
    }
}

/// The place of the first display with the id, or of the first of all where none
/// is asked for.
pub open spec fn is_place_of(monitors: Seq<MonitorInfo>, id: Option<u32>, k: int) -> bool {
    &&& 0 <= k < monitors.len()
    &&& id is Some ==> monitors[k].id == id->0
    &&& forall|i: int| 0 <= i < k ==> id is Some && (#[trigger] monitors[i]).id != id->0
}

impl ScreenCapture {
    /// The id of the display, if one is asked for.
    pub closed spec fn spec_monitor(&self) -> Option<u32> {
        self.monitor
    }

    /// Any display.
    pub fn new() -> (r: Self)
        ensures
            r.spec_monitor() is None,
    {
        ScreenCapture { monitor: None }
    }

    /// The display with the id.
    pub fn with_monitor(id: u32) -> (r: Self)
        ensures
            r.spec_monitor() == Some(id),
    {
        ScreenCapture { monitor: Some(id) }
    }

    /// The display that shows the point.
    pub fn at_point(x: i32, y: i32, monitors: &[MonitorInfo]) -> (r: Result<Self, ScreenError>)
        ensures
            match first_at(monitors@, x, y) {
                Some(id) => r matches Ok(c) && c.spec_monitor() == Some(id),
                None => r matches Err(e) && e == ScreenError::NoMonitor,
            },
    {
        let n: usize = monitors.len();
        assert(monitors@.skip(0) =~= monitors@);
        for i in 0..n
            invariant
                n == monitors@.len(),
                first_at(monitors@, x, y) == first_at(monitors@.skip(i as int), x, y),
        {
            let m = &monitors[i];
            assert(monitors@.skip(i as int)[0] == *m);
            assert(monitors@.skip(i as int).skip(1) =~= monitors@.skip(i + 1));
            if m.x <= x && (x as i64) < m.x as i64 + m.width as i64 && m.y <= y && (y as i64)
                < m.y as i64 + m.height as i64 {
                return Ok(ScreenCapture { monitor: Some(m.id) });
            }
        }
        Err(ScreenError::NoMonitor)
    }

    /// The primary display.
    pub fn primary(monitors: &[MonitorInfo]) -> (r: Result<Self, ScreenError>)
        ensures
            match first_primary(monitors@) {
                Some(id) => r matches Ok(c) && c.spec_monitor() == Some(id),
                None => r matches Err(e) && e == ScreenError::NoMonitor,
            },
    {
        let n: usize = monitors.len();
        assert(monitors@.skip(0) =~= monitors@);
        for i in 0..n
            invariant
                n == monitors@.len(),
                first_primary(monitors@) == first_primary(monitors@.skip(i as int)),
        {
            assert(monitors@.skip(i as int)[0] == monitors@[i as int]);
            assert(monitors@.skip(i as int).skip(1) =~= monitors@.skip(i + 1));
            if monitors[i].is_primary {
                return Ok(ScreenCapture { monitor: Some(monitors[i].id) });
            }
        }
        Err(ScreenError::NoMonitor)
    }

    /// The display that is captured, by its place among the displays.
    pub fn get_monitor_info(&self, monitors: &[MonitorInfo]) -> (r: Result<usize, ScreenError>)
        ensures
            match r {
                Ok(k) => is_place_of(monitors@, self.spec_monitor(), k as int),
                Err(e) => e == ScreenError::NoMonitor && forall|k: int|
                    !is_place_of(monitors@, self.spec_monitor(), k),
            },
    {
        let n: usize = monitors.len();
        let id: u32 = match self.monitor {
            Some(id) => id,
            None => {
                if n > 0 {
                    return Ok(0);
                }
                0
            },
        };
        for i in 0..n
            invariant
                n == monitors@.len(),
                self.monitor == Some(id) || n == 0,
                forall|k: int| 0 <= k < i ==> (#[trigger] monitors@[k]).id != id,
        {
            if monitors[i].id == id {
                return Ok(i);
            }
        }
        Err(ScreenError::NoMonitor)
    }
}

/// The display at the point, else the primary one, else any: what is captured
/// where the pointer is.
pub fn display_for(pointer: Option<(i32, i32)>, monitors: &[MonitorInfo]) -> (r: ScreenCapture)
    ensures
        r.spec_monitor() == (match pointer {
            Some(p) => if first_at(monitors@, p.0, p.1) is Some {
                first_at(monitors@, p.0, p.1)
            } else {
                first_primary(monitors@)
            },
            None => first_primary(monitors@),
        }),
{
    match pointer {
        Some(p) => match ScreenCapture::at_point(p.0, p.1, monitors) {
            Ok(c) => return c,
            Err(_) => {},
        },
        None => {},
    }
    match ScreenCapture::primary(monitors) {
        Ok(c) => c,
        Err(_) => ScreenCapture::new(),
    }
}

// ---- laws --------------------------------------------------------------------------------------

proof fn lemma_first_at(monitors: Seq<MonitorInfo>, x: i32, y: i32)
    ensures
        first_at(monitors, x, y) matches Some(id) ==> exists|i: int|
            0 <= i < monitors.len() && (#[trigger] monitors[i]).id == id && monitors[i].x <= x
                < monitors[i].x + monitors[i].width && monitors[i].y <= y < monitors[i].y
                + monitors[i].height,
        first_at(monitors, x, y) is None ==> forall|i: int|
            0 <= i < monitors.len() ==> !((#[trigger] monitors[i]).x <= x < monitors[i].x
                + monitors[i].width && monitors[i].y <= y < monitors[i].y + monitors[i].height),
    decreases monitors.len(),
{
    if monitors.len() > 0 && !shows_point(monitors[0], x, y) {
        let rest = monitors.skip(1);
        lemma_first_at(rest, x, y);
        if let Some(id) = first_at(rest, x, y) {
            let i = choose|i: int|
                0 <= i < rest.len() && (#[trigger] rest[i]).id == id && rest[i].x <= x < rest[i].x
                    + rest[i].width && rest[i].y <= y < rest[i].y + rest[i].height;
            assert(monitors[i + 1] == rest[i]);
        } else {
            assert forall|i: int| 0 <= i < monitors.len() implies !((#[trigger] monitors[i]).x <= x
                < monitors[i].x + monitors[i].width && monitors[i].y <= y < monitors[i].y
                + monitors[i].height) by {
                if i > 0 {
                    assert(rest[i - 1] == monitors[i]);
                }
            }
        }
    }
}

/// The display at a point reaches over it; where none does, none is meant.
pub proof fn lemma_display_at_the_point(
    x: i32,
    y: i32,
    monitors: &[MonitorInfo],
    r: Result<ScreenCapture, ScreenError>,
)
    requires
        call_ensures(ScreenCapture::at_point, (x, y, monitors), r),
    ensures
        r matches Ok(c) ==> exists|i: int|
            0 <= i < monitors@.len() && c.spec_monitor() == Some((#[trigger] monitors@[i]).id)
                && monitors@[i].x <= x < monitors@[i].x + monitors@[i].width && monitors@[i].y <= y
                < monitors@[i].y + monitors@[i].height,
        r is Err ==> forall|i: int|
            0 <= i < monitors@.len() ==> !((#[trigger] monitors@[i]).x <= x < monitors@[i].x
                + monitors@[i].width && monitors@[i].y <= y < monitors@[i].y
                + monitors@[i].height),
{
    lemma_first_at(monitors@, x, y);
}

proof fn lemma_first_primary(monitors: Seq<MonitorInfo>)
    ensures
        first_primary(monitors) matches Some(id) ==> exists|i: int|
            0 <= i < monitors.len() && (#[trigger] monitors[i]).id == id && monitors[i].is_primary,
        first_primary(monitors) is None ==> forall|i: int|
            0 <= i < monitors.len() ==> !(#[trigger] monitors[i]).is_primary,
    decreases monitors.len(),
{
    if monitors.len() > 0 && !monitors[0].is_primary {
        let rest = monitors.skip(1);
        lemma_first_primary(rest);
        if let Some(id) = first_primary(rest) {
            let i = choose|i: int|
                0 <= i < rest.len() && (#[trigger] rest[i]).id == id && rest[i].is_primary;
            assert(monitors[i + 1] == rest[i]);
        } else {
            assert forall|i: int| 0 <= i < monitors.len() implies !(
            #[trigger] monitors[i]).is_primary by {
                if i > 0 {
                    assert(rest[i - 1] == monitors[i]);
                }
            }
        }
    }
}

/// The primary display is one that is said to be.
pub proof fn lemma_primary_display_is_primary(
    monitors: &[MonitorInfo],
    r: Result<ScreenCapture, ScreenError>,
)
    requires
        call_ensures(ScreenCapture::primary, (monitors,), r),
    ensures
        r matches Ok(c) ==> exists|i: int|
            0 <= i < monitors@.len() && c.spec_monitor() == Some((#[trigger] monitors@[i]).id)
                && monitors@[i].is_primary,
        r is Err ==> forall|i: int|
            0 <= i < monitors@.len() ==> !(#[trigger] monitors@[i]).is_primary,
{
    lemma_first_primary(monitors@);
}

/// What is captured where the pointer is, is the display under it; only where
/// there is none does the primary one count.
pub proof fn lemma_display_under_the_pointer(
    p: (i32, i32),
    monitors: &[MonitorInfo],
    r: ScreenCapture,
    at: Result<ScreenCapture, ScreenError>,
    primary: Result<ScreenCapture, ScreenError>,
    lost: ScreenCapture,
)
    requires
        call_ensures(display_for, (Some(p), monitors), r),
        call_ensures(display_for, (None, monitors), lost),
        call_ensures(ScreenCapture::at_point, (p.0, p.1, monitors), at),
        call_ensures(ScreenCapture::primary, (monitors,), primary),
    ensures
        at matches Ok(c) ==> r.spec_monitor() == c.spec_monitor(),
        at is Err ==> (primary matches Ok(c) ==> r.spec_monitor() == c.spec_monitor()),
        at is Err && primary is Err ==> r.spec_monitor() is None,
        primary matches Ok(c) ==> lost.spec_monitor() == c.spec_monitor(),
{
}

/// The display that is captured has the id that was asked for, or is the first
/// where none was.
pub proof fn lemma_captured_display_has_the_id(
    id: u32,
    c: ScreenCapture,
    any: ScreenCapture,
    monitors: &[MonitorInfo],
    r: Result<usize, ScreenError>,
    q: Result<usize, ScreenError>,
)
    requires
        call_ensures(ScreenCapture::with_monitor, (id,), c),
        call_ensures(ScreenCapture::new, (), any),
        call_ensures(ScreenCapture::get_monitor_info, (&c, monitors), r),
        call_ensures(ScreenCapture::get_monitor_info, (&any, monitors), q),
    ensures
        r matches Ok(k) ==> k < monitors@.len() && monitors@[k as int].id == id,
        q matches Ok(k) ==> k == 0 && monitors@.len() > 0,
{
    if let Ok(k) = q {
        if k > 0 {
            let first = monitors@[0];
        }
    }
}

} // verus!
