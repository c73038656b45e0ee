//! The program's own windows, and those that it captures.

use vstd::prelude::*;

use crate::commands::history::CaptureFault;
use crate::commands::pipeline::Point;
use crate::config::CloseBehavior;
use crate::text;

verus! {

// ---- the pages in the windows ----------------------------------------------------------------

/// The scheme of a URL, by the `url` crate. Nothing where the text is no URL.
pub uninterp spec fn url_scheme(url: Seq<char>) -> Option<Seq<char>>;

/// `url::Url::parse` and `url::Url::scheme`: the scheme of the URL, a function of
/// the text alone.
#[verifier::external_body]
fn scheme_of(url: &str) -> (r: Option<String>)
    ensures
        text::opt_owned(r) == url_scheme(url@),
{
    Some(url::Url::parse(url).ok()?.scheme().to_string())
}

/// The scheme is that of a page that was loaded. A window that never loaded one
/// shows `about:blank`.
pub open spec fn is_loaded(scheme: Option<Seq<char>>) -> bool {
    scheme matches Some(s) && s != "about"@
}

/// Whether a page with the scheme was loaded.
pub fn shows_page(scheme: Option<&str>) -> (r: bool)
    ensures
        r == is_loaded(text::opt(scheme)),
{
    match scheme {
        Some(s) => !text::same(s, "about"),
        None => false,
    }
}

fn is_page(url: &str) -> (r: bool)
    ensures
        r == is_loaded(url_scheme(url@)),
{
    match scheme_of(url) {
        Some(s) => shows_page(Some(s.as_str())),
        None => false,
    }
}

/// The page that a window is healed with, and the one to remember.
#[derive(Debug)]
pub struct CanonicalUrl {
    pub url: Option<String>,
    pub remember: Option<String>,
}

/// The page that a window is healed with: that of the main window, else the last
/// that was seen, else the one that the program comes with.
pub open spec fn canonical(
    hub: Option<Seq<char>>,
    remembered: Option<Seq<char>>,
    dev: bool,
    dev_url: Option<Seq<char>>,
) -> Option<Seq<char>> {
    if hub matches Some(u) && is_loaded(url_scheme(u)) {
        hub
    } else if remembered is Some {
        remembered
    } else if dev {
        dev_url
    } else {
        Some("tauri://localhost"@)
    }
}

/// The page to remember.
pub open spec fn remembered_of(url: Option<Seq<char>>) -> Option<Seq<char>> {
    if url matches Some(u) && is_loaded(url_scheme(u)) {
        url
    } else {
        None
    }
}

fn owned(s: Option<&str>) -> (r: Option<String>)
    ensures
        text::opt_owned(r) == text::opt(s),
{
    match s {
        Some(t) => Some(t.to_owned()),
        None => None,
    }
}

/// The page to remember: any that was loaded.
pub fn remember_canonical_url(url: &str) -> (r: Option<String>)
    ensures
        text::opt_owned(r) == remembered_of(Some(url@)),
{
    if is_page(url) {
        Some(url.to_owned())
    } else {
        None
    }
}

/// The page that a window is healed with, and the one to remember. `hub` is what
/// the main window shows.
pub fn canonical_app_url(
    hub: Option<&str>,
    remembered: Option<&str>,
    dev: bool,
    dev_url: Option<&str>,
) -> (r: CanonicalUrl)
    ensures
        text::opt_owned(r.url) == canonical(
            text::opt(hub),
            text::opt(remembered),
            dev,
            text::opt(dev_url),
        ),
        text::opt_owned(r.remember) == remembered_of(text::opt(hub)),
{
    match hub {
        Some(u) => {
            if is_page(u) {
                return CanonicalUrl { url: Some(u.to_owned()), remember: Some(u.to_owned()) };
            }
        },
        None => {},
    }
    let url = if remembered.is_some() {
        owned(remembered)
    } else if dev {
        owned(dev_url)
    } else {
        Some("tauri://localhost".to_owned())
    };
    CanonicalUrl { url, remember: None }
}

/// What to do with a window that was opened a while ago.
#[derive(Debug)]
pub enum WatchStep {
    /// It shows a page, which is remembered.
    Loaded { remember: String },
    /// It is gone.
    Gone,
    /// It shows none: it is sent to the page.
    Navigate,
}

/// What to do with a window that was opened a while ago. `url` is what it shows,
/// if it can be asked.
pub fn watch_navigation(url: Option<&str>) -> (r: WatchStep)
    ensures
        match text::opt(url) {
            None => r is Gone,
            Some(u) => if is_loaded(url_scheme(u)) {
                r matches WatchStep::Loaded { remember } && remember@ == u
            } else {
                r is Navigate
            },
        },
{
    match url {
        None => WatchStep::Gone,
        Some(u) => if is_page(u) {
            WatchStep::Loaded { remember: u.to_owned() }
        } else {
            WatchStep::Navigate
        },
    }
}

/// How long to wait before a window is looked at again. It is looked at three
/// times.
pub fn watch_wait_ms(attempt: u32) -> (r: Option<u64>)
    ensures
        r == (if attempt == 0 {
            Some(500u64)
        } else if attempt == 1 {
            Some(1500u64)
        } else if attempt == 2 {
            Some(3000u64)
        } else {
            None
        }),
{
    if attempt == 0 {
        Some(500)
    } else if attempt == 1 {
        Some(1500)
    } else if attempt == 2 {
        Some(3000)
    } else {
        None
    }
}

/// How long to wait before a main window that still starts is loaded again, which
/// is done twice.
pub fn heal_wait_ms(attempt: u32) -> (r: Option<u64>)
    ensures
        r == (if attempt == 0 {
            Some(3000u64)
        } else if attempt == 1 {
            Some(8000u64)
        } else {
            None
        }),
{
    if attempt == 0 {
        Some(3000)
    } else if attempt == 1 {
        Some(8000)
    } else {
        None
    }
}

/// What closing the main window does.
#[derive(Clone, Copy, PartialEq, Eq, Structural, Debug)]
pub enum CloseStep {
    /// Its page is remembered and the window destroyed.
    Destroy,
    Hide,
    Minimize,
    Exit,
}

/// What closing the main window does. On Linux a hidden window costs more than a
/// new one.
pub fn intercept_hub_close(behavior: CloseBehavior, linux: bool) -> (r: CloseStep)
    ensures
        r == (match behavior {
            CloseBehavior::MinimizeToTray => if linux {
                CloseStep::Destroy
            } else {
                CloseStep::Hide
            },
            CloseBehavior::MinimizeToTaskbar => CloseStep::Minimize,
            CloseBehavior::Exit => CloseStep::Exit,
        }),
{
    match behavior {
        CloseBehavior::MinimizeToTray => if linux {
            CloseStep::Destroy
        } else {
            CloseStep::Hide
        },
        CloseBehavior::MinimizeToTaskbar => CloseStep::Minimize,
        CloseBehavior::Exit => CloseStep::Exit,
    }
}

// ---- updates ---------------------------------------------------------------------------------

/// A release that is newer than the program.
#[derive(Debug)]
pub struct UpdateInfo {
    pub version: String,
    pub current_version: String,
    pub notes: Option<String>,
    /// `in-place` or `external`.
    pub install_kind: &'static str,
}

/// How an update is installed. On Linux only a program in one file can replace
/// itself.
pub open spec fn install_kind(linux: bool, app_image: bool) -> Seq<char> {
    if linux && !app_image {
        "external"@
    } else {
        "in-place"@
    }
}

/// How an update is installed.
pub fn update_install_kind(linux: bool, app_image: bool) -> (r: &'static str)
    ensures
        r@ == install_kind(linux, app_image),
{
    if linux && !app_image {
        "external"
    } else {
        "in-place"
    }
}

/// What the user is told of a newer release.
pub fn check_for_updates(
    version: &str,
    current_version: &str,
    notes: Option<&str>,
    linux: bool,
    app_image: bool,
) -> (r: UpdateInfo)
    ensures
        r.version@ == version@,
        r.current_version@ == current_version@,
        text::opt_owned(r.notes) == text::opt(notes),
        r.install_kind@ == install_kind(linux, app_image),
{
    UpdateInfo {
        version: version.to_owned(),
        current_version: current_version.to_owned(),
        notes: owned(notes),
        install_kind: update_install_kind(linux, app_image),
    }
}

/// Whether an update can be installed from within the program.
pub fn install_update(linux: bool, app_image: bool) -> (r: Result<(), &'static str>)
    ensures
        (r is Ok) == !(linux && !app_image),
        r matches Err(e) ==> e@
            == "this install can't self-update; download the new release instead"@,
{
    if linux && !app_image {
        Err("this install can't self-update; download the new release instead")
    } else {
        Ok(())
    }
}

/// The release that is to be installed, by what looking for a newer one found.
pub fn update_to_install(found: Option<UpdateInfo>) -> (r: Result<UpdateInfo, &'static str>)
    ensures
        match found {
            Some(u) => r == Ok::<UpdateInfo, &'static str>(u),
            None => r matches Err(e) && e@ == "no update available"@,
        },
{
    match found {
        Some(u) => Ok(u),
        None => Err("no update available"),
    }
}

/// Whether to wait once more before the program starts anew: while a capture is
/// under way, fifty times at most.
pub fn wait_before_restart(capture_in_progress: bool, waited: u32) -> (r: bool)
    ensures
        r == (capture_in_progress && waited < 50),
{
    capture_in_progress && waited < 50
}

// ---- pinned images ---------------------------------------------------------------------------

/// The images that are pinned, by the labels of their windows.
#[derive(Debug)]
pub struct PinnedImages {
    entries: Vec<(String, String)>,
}

pub open spec fn found_in(entries: Seq<(Seq<char>, Seq<char>)>, label: Seq<char>) -> Option<Seq<char>>
    decreases entries.len(),
{
    if entries.len() == 0 {
        None
    } else if entries.last().0 == label {
        Some(entries.last().1)
    } else {
        found_in(entries.drop_last(), label)
    }
}

impl PinnedImages {
    pub closed spec fn view(&self) -> Seq<(Seq<char>, Seq<char>)> {
        Seq::new(self.entries@.len(), |i: int| (self.entries@[i].0@, self.entries@[i].1@))
    }

    /// The image that a window shows.
    pub open spec fn image(&self, label: Seq<char>) -> Option<Seq<char>> {
        found_in(self.view(), label)
    }

    /// Nothing is pinned.
    pub fn new() -> (r: Self)
        ensures
            forall|label: Seq<char>| #[trigger] r.image(label) is None,
    {
        PinnedImages { entries: Vec::new() }
    }

    /// A window shows the image, where the image may be used.
    pub fn pin_image(&mut self, label: &str, path: &str, path_allowed: bool) -> (r: Result<
        (),
        CaptureFault,
    >)
        ensures
            !path_allowed ==> r == Err::<(), CaptureFault>(CaptureFault::Outside)
                && *final(self) == *old(self),
            path_allowed ==> r == Ok::<(), CaptureFault>(()) && final(self).image(label@) == Some(
                path@,
            ),
            forall|other: Seq<char>| other != label@ ==> #[trigger] final(self).image(other) == old(self).image(other),
    {
        if !path_allowed {
            return Err(CaptureFault::Outside);
        }
        let ghost before = self.view();
        self.entries.push((label.to_owned(), path.to_owned()));
        assert(self.view() =~= before.push((label@, path@)));
        assert(self.view().drop_last() =~= before);
        Ok(())
    }

    /// The image that a window shows.
    pub fn get_pinned_image_path(&self, label: &str) -> (r: Option<String>)
        ensures
            text::opt_owned(r) == self.image(label@),
    {
        let ghost all = self.view();
        let mut i: usize = self.entries.len();
        assert(all.take(i as int) =~= all);
        while i > 0
            invariant
                i <= self.entries@.len(),
                all == self.view(),
                all.len() == self.entries@.len(),
                found_in(all, label@) == found_in(all.take(i as int), label@),
            decreases i,
        {
            i = i - 1;
            assert(all.take(i + 1).drop_last() =~= all.take(i as int));
            assert(all.take(i + 1).last() == (self.entries@[i as int].0@, self.entries@[i as int].1@));
            if text::same(self.entries[i].0.as_str(), label) {
                return Some(self.entries[i].1.clone());
            }
        }
        None
    }
}

/// The label of a window that shows a pinned image, from an id that is its own.
pub fn pin_label(id: &str) -> (r: String)
    ensures
        r@ == "pin_"@ + id@,
{
    let mut s = String::from_str("pin_");
    s.append(id);
    s
}

/// Windows with different ids have different labels.
pub proof fn lemma_pin_labels_differ(a: Seq<char>, b: Seq<char>)
    requires
        a != b,
    ensures
        "pin_"@ + a != "pin_"@ + b,
{
    reveal_strlit("pin_");
    if "pin_"@ + a == "pin_"@ + b {
        assert(("pin_"@ + a).skip(4) =~= a);
        assert(("pin_"@ + b).skip(4) =~= b);
    }
}

/// What to do about a pinned window that is to stay above the others.
#[derive(Clone, Copy, PartialEq, Eq, Structural, Debug)]
pub enum KeepAbove {
    Done,
    Retry,
    GiveUp,
}

/// What to do about a pinned window that is to stay above the others. `count` is
/// how many windows were told so, if any can be; it is tried ten times.
pub fn keep_above_step(attempt: u32, count: Option<u32>) -> (r: KeepAbove)
    ensures
        r == (match count {
            None => KeepAbove::GiveUp,
            Some(n) => if n > 0 {
                KeepAbove::Done
            } else if attempt + 1 < 10 {
                KeepAbove::Retry
            } else {
                KeepAbove::GiveUp
            },
        }),
{
    match count {
        None => KeepAbove::GiveUp,
        Some(n) => if n > 0 {
            KeepAbove::Done
        } else if attempt < 9 {
            KeepAbove::Retry
        } else {
            KeepAbove::GiveUp
        },
    }
}

// ---- where things are ------------------------------------------------------------------------

/// A window of the desktop, as far as it can be asked.
#[derive(Clone, Copy, PartialEq, Eq, Structural, Debug)]
pub struct WindowPlace {
    pub id: Option<u32>,
    pub x: Option<i32>,
    pub y: Option<i32>,
    pub width: Option<u32>,
    pub height: Option<u32>,
}

/// The first window with the id is at `i`.
pub open spec fn is_window_at(windows: Seq<WindowPlace>, id: u32, i: int) -> bool {
    &&& 0 <= i < windows.len()
    &&& windows[i].id == Some(id)
    &&& forall|k: int| 0 <= k < i ==> (#[trigger] windows[k]).id != Some(id)
}

fn find_window(windows: &[WindowPlace], id: u32) -> (r: Option<usize>)
    ensures
        match r {
            Some(i) => is_window_at(windows@, id, i as int),
            None => forall|i: int| !is_window_at(windows@, id, i),
        },
{
    for i in 0..windows.len()
        invariant
            forall|k: int| 0 <= k < i ==> (#[trigger] windows@[k]).id != Some(id),
    {
        match windows[i].id {
            Some(w) => {
                if w == id {
                    return Some(i);
                }
            },
            None => {},
        }
    }
    None
}

/// A place that both parts are known of.
pub open spec fn point_of(x: Option<i32>, y: Option<i32>) -> Option<Point> {
    if x is Some && y is Some {
        Some(Point { x: x->0, y: y->0 })
    } else {
        None
    }
}

fn point(x: Option<i32>, y: Option<i32>) -> (r: Option<Point>)
    ensures
        r == point_of(x, y),
{
    match x {
        Some(a) => match y {
            Some(b) => Some(Point { x: a, y: b }),
            None => None,
        },
        None => None,
    }
}

/// Where the upper left corner of a window is.
pub fn window_screen_origin(windows: &[WindowPlace], id: u32) -> (r: Option<Point>)
    ensures
        forall|i: int|
            is_window_at(windows@, id, i) ==> r == point_of(windows@[i].x, windows@[i].y),
        (forall|i: int| !is_window_at(windows@, id, i)) ==> r is None,
{
    match find_window(windows, id) {
        Some(i) => point(windows[i].x, windows[i].y),
        None => None,
    }
}

/// Where a window is and how large, where all of that is known.
#[derive(Clone, Copy, PartialEq, Eq, Structural, Debug)]
pub struct WindowBounds {
    pub x: i32,
    pub y: i32,
    pub width: u32,
    pub height: u32,
}

/// What is known of a window makes up its bounds.
pub open spec fn bounds_of(w: WindowPlace) -> Option<WindowBounds> {
    if w.x is Some && w.y is Some && w.width is Some && w.height is Some {
        Some(WindowBounds { x: w.x->0, y: w.y->0, width: w.width->0, height: w.height->0 })
    } else {
        None
    }
}

/// Where a window is and how large.
pub fn window_bounds(windows: &[WindowPlace], id: u32) -> (r: Option<WindowBounds>)
    ensures
        forall|i: int| is_window_at(windows@, id, i) ==> r == bounds_of(windows@[i]),
        (forall|i: int| !is_window_at(windows@, id, i)) ==> r is None,
{
    match find_window(windows, id) {
        Some(i) => match (windows[i].x, windows[i].y, windows[i].width, windows[i].height) {
            (Some(x), Some(y), Some(width), Some(height)) => Some(
                WindowBounds { x, y, width, height },
            ),
            _ => None,
        },
        None => None,
    }
}

/// A monitor, as far as it can be asked.
#[derive(Clone, Copy, PartialEq, Eq, Structural, Debug)]
pub struct MonitorPlace {
    pub x: Option<i32>,
    pub y: Option<i32>,
    pub is_primary: Option<bool>,
}

/// Where the first primary monitor is.
pub open spec fn primary_origin(monitors: Seq<MonitorPlace>) -> Option<Point>
    decreases monitors.len(),
{
    if monitors.len() == 0 {
        None
    } else if monitors[0].is_primary == Some(true) {
        point_of(monitors[0].x, monitors[0].y)
    } else {
        primary_origin(monitors.skip(1))
    }
}

fn find_primary_origin(monitors: &[MonitorPlace]) -> (r: Option<Point>)
    ensures
        r == primary_origin(monitors@),
{
    let n: usize = monitors.len();
    assert(monitors@.skip(0) =~= monitors@);
    for i in 0..n
        invariant
            n == monitors@.len(),
            primary_origin(monitors@) == primary_origin(monitors@.skip(i as int)),
    {
        assert(monitors@.skip(i as int).skip(1) =~= monitors@.skip(i + 1));
        assert(monitors@.skip(i as int)[0] == monitors@[i as int]);
        match monitors[i].is_primary {
            Some(true) => return point(monitors[i].x, monitors[i].y),
            _ => {},
        }
    }
    None
}

/// Where the upper left corner of the monitor under the pointer is, or else that
/// of the primary one. Nothing where it is not known where the pointer is.
pub fn active_monitor_origin(
    pointer: Option<Point>,
    under: Option<MonitorPlace>,
    all: &[MonitorPlace],
) -> (r: Option<Point>)
    ensures
        r == (if pointer is None {
            None
        } else if under is Some && point_of(under->0.x, under->0.y) is Some {
            point_of(under->0.x, under->0.y)
        } else {
            primary_origin(all@)
        }),
{
    match pointer {
        None => None,
        Some(_) => match under {
            Some(m) => match point(m.x, m.y) {
                Some(p) => Some(p),
                None => find_primary_origin(all),
            },
            None => find_primary_origin(all),
        },
    }
}

/// How a monitor can be captured.
#[derive(Clone, Copy, PartialEq, Eq, Structural, Debug)]
pub enum MonitorSource {
    /// The area of the active monitor, from the desktop.
    DesktopArea,
    /// By the graphics card, at the point.
    Graphics { at: Point },
    /// With its brightness beyond the common range, at the point.
    Hdr { at: Point },
    /// The monitor at the point, else the primary one, else any.
    AtPoint { at: Point },
    /// The primary monitor, else any.
    Primary,
}

/// The ways to capture the active monitor, the first that works being taken.
pub open spec fn monitor_sources(
    wayland: bool,
    windows: bool,
    hdr: bool,
    graphics: bool,
    pointer: Option<Point>,
) -> Seq<MonitorSource> {
    if wayland && !windows {
        seq![MonitorSource::DesktopArea]
    } else {
        match pointer {
            None => seq![MonitorSource::Primary],
            Some(at) => if windows && hdr {
                if graphics {
                    seq![MonitorSource::Graphics { at }, MonitorSource::AtPoint { at }]
                } else {
                    seq![MonitorSource::Hdr { at }, MonitorSource::AtPoint { at }]
                }
            } else {
                seq![MonitorSource::AtPoint { at }]
            },
        }
    }
}

/// The ways to capture the active monitor, the first that works being taken.
pub fn capture_active_monitor_with_hdr(
    wayland: bool,
    windows: bool,
    hdr: bool,
    graphics: bool,
    pointer: Option<Point>,
) -> (r: Vec<MonitorSource>)
    ensures
        r@ == monitor_sources(wayland, windows, hdr, graphics, pointer),
{
    let mut v: Vec<MonitorSource> = Vec::new();
    if wayland && !windows {
        v.push(MonitorSource::DesktopArea);
    } else {
        match pointer {
            None => v.push(MonitorSource::Primary),
            Some(at) => {
                if windows && hdr {
                    if graphics {
                        v.push(MonitorSource::Graphics { at });
                    } else {
                        v.push(MonitorSource::Hdr { at });
                    }
                }
                v.push(MonitorSource::AtPoint { at });
            },
        }
    }
    assert(v@ =~= monitor_sources(wayland, windows, hdr, graphics, pointer));
    v
}

// ---- laws --------------------------------------------------------------------------------------

/// The page of the main window counts before one that is remembered, and that
/// before the one the program comes with. A blank page counts for nothing.
pub proof fn lemma_loaded_pages_count_first(
    hub: Option<&str>,
    remembered: Option<&str>,
    dev: bool,
    dev_url: Option<&str>,
    r: CanonicalUrl,
)
    requires
        call_ensures(canonical_app_url, (hub, remembered, dev, dev_url), r),
    ensures
        hub is Some && url_scheme(hub->0@) is Some && url_scheme(hub->0@)->0 != "about"@ ==> (
        r.url matches Some(u) && u@ == hub->0@) && (r.remember matches Some(u) && u@ == hub->0@),
        hub is None && remembered is Some ==> ((r.url matches Some(u) && u@ == remembered->0@)
            && r.remember is None),
        hub is None && remembered is None && !dev ==> (r.url matches Some(u) && u@
            == "tauri://localhost"@),
        hub is Some && url_scheme(hub->0@) == Some("about"@) && remembered is Some ==> (
        r.url matches Some(u) && u@ == remembered->0@),
{
}

/// A window that shows a page is left alone, a blank one is sent to it, and the
/// page is remembered.
pub proof fn lemma_blank_windows_are_sent_to_the_page(url: &str, r: WatchStep, gone: WatchStep, kept: Option<String>)
    requires
        call_ensures(watch_navigation, (Some(url),), r),
        call_ensures(watch_navigation, (None,), gone),
        call_ensures(remember_canonical_url, (url,), kept),
    ensures
        gone is Gone,
        url_scheme(url@) is None || url_scheme(url@) == Some("about"@) ==> r is Navigate && kept
            is None,
        url_scheme(url@) is Some && url_scheme(url@)->0 != "about"@ ==> (
        r matches WatchStep::Loaded { remember } && remember@ == url@) && (kept matches Some(k) && k@
            == url@),
{
}

/// Each wait is longer than the one before, and they end.
pub proof fn lemma_waits_grow_and_end(attempt: u32, a: Option<u64>, b: Option<u64>, x: Option<u64>, y: Option<u64>)
    requires
        attempt < u32::MAX,
        call_ensures(watch_wait_ms, (attempt,), a),
        call_ensures(watch_wait_ms, ((attempt + 1) as u32,), b),
        call_ensures(heal_wait_ms, (attempt,), x),
        call_ensures(heal_wait_ms, ((attempt + 1) as u32,), y),
    ensures
        a is None ==> b is None,
        a is Some && b is Some ==> b->0 >= 2 * a->0,
        a is Some <==> attempt < 3,
        x is Some <==> attempt < 2,
        x is Some && y is Some ==> y->0 >= 2 * x->0,
        attempt == 0 ==> a == Some(500u64) && x == Some(3000u64),
{
}

/// Closing the main window ends the program only where the user chose that.
pub proof fn lemma_closing_does_what_was_chosen(
    behavior: CloseBehavior,
    linux: bool,
    r: CloseStep,
)
    requires
        call_ensures(intercept_hub_close, (behavior, linux), r),
    ensures
        r == CloseStep::Exit <==> behavior == CloseBehavior::Exit,
        r == CloseStep::Minimize <==> behavior == CloseBehavior::MinimizeToTaskbar,
        r == CloseStep::Hide <==> behavior == CloseBehavior::MinimizeToTray && !linux,
        r == CloseStep::Destroy <==> behavior == CloseBehavior::MinimizeToTray && linux,
{
}

/// The program replaces itself on every system but Linux, and there where it is
/// one file. What the user is told agrees with what is done.
pub proof fn lemma_updates_are_installed_as_told(
    version: &str,
    current: &str,
    notes: Option<&str>,
    linux: bool,
    app_image: bool,
    told: UpdateInfo,
    done: Result<(), &'static str>,
)
    requires
        call_ensures(check_for_updates, (version, current, notes, linux, app_image), told),
        call_ensures(install_update, (linux, app_image), done),
    ensures
        told.version@ == version@,
        told.current_version@ == current@,
        notes matches Some(n) ==> (told.notes matches Some(t) && t@ == n@),
        done is Ok <==> told.install_kind@ == "in-place"@,
        done is Err <==> told.install_kind@ == "external"@,
        done is Err <==> linux && !app_image,
{
    reveal_strlit("in-place");
    reveal_strlit("external");
    assert("in-place"@[0] == 'i' && "external"@[0] == 'e');
}

/// A restart waits while a capture is under way, fifty times at most.
pub proof fn lemma_restart_waits_for_captures(busy: bool, waited: u32, r: bool)
    requires
        call_ensures(wait_before_restart, (busy, waited), r),
    ensures
        r ==> busy,
        busy ==> (r <==> waited < 50),
{
}

/// A pinned window is told to stay above ten times at most, and no more once it
/// was.
pub proof fn lemma_pinned_windows_are_told_ten_times(
    attempt: u32,
    count: u32,
    r: KeepAbove,
    none: KeepAbove,
)
    requires
        call_ensures(keep_above_step, (attempt, Some(count)), r),
        call_ensures(keep_above_step, (attempt, None), none),
    ensures
        none == KeepAbove::GiveUp,
        r == KeepAbove::Done <==> count > 0,
        count == 0 ==> (r == KeepAbove::Retry <==> attempt < 9),
{
}

/// A window is where the first of its id is said to be, and as large.
#[verifier::spinoff_prover]
pub proof fn lemma_window_is_where_it_is_said_to_be(
    windows: &[WindowPlace],
    id: u32,
    i: int,
    p: Option<Point>,
    b: Option<WindowBounds>,
)
    requires
        call_ensures(window_screen_origin, (windows, id), p),
        call_ensures(window_bounds, (windows, id), b),
        0 <= i < windows@.len(),
        windows@[i].id == Some(id),
        forall|k: int| 0 <= k < i ==> (#[trigger] windows@[k]).id != Some(id),
    ensures
        p matches Some(q) ==> windows@[i].x == Some(q.x) && windows@[i].y == Some(q.y),
        windows@[i].x is Some && windows@[i].y is Some ==> p is Some,
        b matches Some(q) ==> windows@[i].x == Some(q.x) && windows@[i].y == Some(q.y)
            && windows@[i].width == Some(q.width) && windows@[i].height == Some(q.height),
        windows@[i].x is Some && windows@[i].y is Some && windows@[i].width is Some
            && windows@[i].height is Some ==> b is Some,
{
    let w = windows@[i];
    assert(is_window_at(windows@, id, i));
    assert(p == point_of(w.x, w.y));
    assert(b == bounds_of(w));
}

proof fn lemma_primary_origin(monitors: Seq<MonitorPlace>)
    ensures
        primary_origin(monitors) matches Some(p) ==> exists|i: int|
            0 <= i < monitors.len() && (#[trigger] monitors[i]).is_primary == Some(true)
                && monitors[i].x == Some(p.x) && monitors[i].y == Some(p.y),
    decreases monitors.len(),
{
    if monitors.len() > 0 {
        if monitors[0].is_primary != Some(true) {
            let rest = monitors.skip(1);
            lemma_primary_origin(rest);
            if let Some(p) = primary_origin(rest) {
                let i = choose|i: int|
                    0 <= i < rest.len() && (#[trigger] rest[i]).is_primary == Some(true)
                        && rest[i].x == Some(p.x) && rest[i].y == Some(p.y);
                assert(monitors[i + 1] == rest[i]);
            }
        }
    }
}

/// The active monitor is the one under the pointer; where its corner is not known,
/// a primary one counts.
pub proof fn lemma_active_monitor_is_under_the_pointer(
    pointer: Option<Point>,
    under: Option<MonitorPlace>,
    all: &[MonitorPlace],
    p: Point,
)
    requires
        call_ensures(active_monitor_origin, (pointer, under, all), Some(p)),
    ensures
        pointer is Some,
        (under matches Some(m) && m.x == Some(p.x) && m.y == Some(p.y)) || exists|i: int|
            0 <= i < all@.len() && (#[trigger] all@[i]).is_primary == Some(true) && all@[i].x
                == Some(p.x) && all@[i].y == Some(p.y),
        under matches Some(m) ==> (m.x is Some && m.y is Some ==> m.x == Some(p.x) && m.y == Some(
            p.y,
        )),
{
    lemma_primary_origin(all@);
}

/// The monitor at the pointer is what is captured, on Windows with its brightness
/// first where it has more than the common range.
pub proof fn lemma_monitor_at_the_pointer_is_captured(
    wayland: bool,
    windows: bool,
    hdr: bool,
    graphics: bool,
    at: Point,
    r: Vec<MonitorSource>,
    lost: Vec<MonitorSource>,
)
    requires
        call_ensures(
            capture_active_monitor_with_hdr,
            (wayland, windows, hdr, graphics, Some(at)),
            r,
        ),
        call_ensures(capture_active_monitor_with_hdr, (wayland, windows, hdr, graphics, None), lost),
    ensures
        r@.len() > 0 && lost@.len() == 1,
        wayland && !windows ==> r@.last() == MonitorSource::DesktopArea && lost@[0]
            == MonitorSource::DesktopArea,
        windows || !wayland ==> r@.last() == (MonitorSource::AtPoint { at }) && lost@[0]
            == MonitorSource::Primary,
        windows && hdr && graphics ==> r@[0] == (MonitorSource::Graphics { at }),
        windows && hdr && !graphics ==> r@[0] == (MonitorSource::Hdr { at }),
        !windows || !hdr ==> r@.len() == 1,
{
}

} // verus!
