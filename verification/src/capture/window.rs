//! Windows: which one is meant, which ones can be offered, and how one is
//! captured.

use vstd::prelude::*;

use crate::capture::Rectangle;
use crate::capture::WindowInfo;
use crate::order;
use crate::text;

verus! {

/// What the system tells of a window. A field that could not be read is
/// missing.
#[derive(Debug)]
pub struct WindowFacts {
    pub id: Option<u32>,
    pub title: Option<String>,
    pub app_name: Option<String>,
    pub x: Option<i32>,
    pub y: Option<i32>,
    pub width: Option<u32>,
    pub height: Option<u32>,
    pub minimized: Option<bool>,
}

/// Why no window was found.
#[derive(Clone, Copy, PartialEq, Eq, Structural, Debug)]
pub enum WindowError {
    /// No window has the title.
    NoSuchTitle,
    /// Every window is minimised or has no title.
    NoneFocused,
    /// No window has the id.
    NoSuchId,
    /// The window has no id that can be read.
    Unreadable,
}

impl WindowError {
    /// The error in words. `title` and `id` are what was looked for, and
    /// `detail` is what the system said of a window that cannot be read.
    pub open spec fn spec_message(self, title: Seq<char>, id: u32, detail: Seq<char>) -> Seq<char> {
        match self {
            WindowError::NoSuchTitle => "Window with title '"@ + title + "' not found"@,
            WindowError::NoneFocused => "No focused window found"@,
            WindowError::NoSuchId => "Window "@ + text::dec(id as nat) + " not found"@,
            WindowError::Unreadable => detail,
        }
    }

    pub fn message(&self, title: &str, id: u32, detail: &str) -> (s: String)
        ensures
            s@ == self.spec_message(title@, id, detail@),
    {
        match self {
            WindowError::NoSuchTitle => {
                let mut s = "Window with title '".to_owned();
                s.append(title);
                s.append("' not found");
                s
            },
            WindowError::NoneFocused => "No focused window found".to_owned(),
            WindowError::NoSuchId => {
                let mut s = "Window ".to_owned();
                text::push_dec(&mut s, id as u64);
                s.append(" not found");
                s
            },
            WindowError::Unreadable => detail.to_owned(),
        }
    }
}

impl WindowFacts {
    /// The window's title can be read and holds the text.
    pub open spec fn titled(&self, title: Seq<char>) -> bool {
        text::opt_owned(self.title) matches Some(t) && text::contains(t, title)
    }

    /// The window can be in use: it is known not to be minimised and to have a
    /// title.
    pub open spec fn focusable(&self) -> bool {
        self.minimized == Some(false) && (text::opt_owned(self.title) matches Some(t) && t.len()
            > 0)
    }

    /// The window can be offered: all of it can be read, it has a title, is not
    /// minimised and is more than 50 pixels wide and high.
    pub open spec fn listable(&self) -> bool {
        &&& self.focusable()
        &&& self.width matches Some(w) && w > 50
        &&& self.height matches Some(h) && h > 50
        &&& self.id is Some
        &&& self.app_name is Some
        &&& self.x is Some
        &&& self.y is Some
    }

    fn has_title(&self, title: &str) -> (r: bool)
        ensures
            r == self.titled(title@),
    {
        match &self.title {
            Some(t) => text::has_text(t.as_str(), title),
            None => false,
        }
    }

    fn can_be_in_use(&self) -> (r: bool)
        ensures
            r == self.focusable(),
    {
        match self.minimized {
            Some(m) => if m {
                false
            } else {
                match &self.title {
                    Some(t) => !t.as_str().is_empty(),
                    None => false,
                }
            },
            None => false,
        }
    }

    /// The window as it is offered, where it can be.
    fn listed(&self) -> (r: Option<WindowInfo>)
        ensures
            r is Some <==> self.listable(),
            r matches Some(i) ==> describes(i, *self),
    {
        if !self.can_be_in_use() {
            return None;
        }
        match (self.id, &self.title, &self.app_name, self.x, self.y, self.width, self.height) {
            (
                Some(id),
                Some(title),
                Some(app_name),
                Some(x),
                Some(y),
                Some(width),
                Some(height),
            ) => {
                if width <= 50 || height <= 50 {
                    return None;
                }
                Some(
                    WindowInfo {
                        id,
                        title: title.clone(),
                        app_name: app_name.clone(),
                        x,
                        y,
                        width,
                        height,
                    },
                )
            },
            _ => None,
        }
    }
}

/// The entry tells of the window.
pub open spec fn describes(i: WindowInfo, w: WindowFacts) -> bool {
    &&& w.id == Some(i.id)
    &&& text::opt_owned(w.title) == Some(i.title@)
    &&& text::opt_owned(w.app_name) == Some(i.app_name@)
    &&& w.x == Some(i.x)
    &&& w.y == Some(i.y)
    &&& w.width == Some(i.width)
    &&& w.height == Some(i.height)
}

/// The windows that can be offered, in their order.
pub open spec fn listables(ws: Seq<WindowFacts>) -> Seq<WindowFacts>
    decreases ws.len(),
{
    if ws.len() == 0 {
        Seq::empty()
    } else if ws.last().listable() {
        listables(ws.drop_last()).push(ws.last())
    } else {
        listables(ws.drop_last())
    }
}

/// The titles of the windows.
pub open spec fn titles(ws: Seq<WindowFacts>) -> Seq<Seq<char>> {
    ws.map_values(
        |w: WindowFacts|
            match w.title {
                Some(t) => t@,
                None => Seq::empty(),
            },
    )
}

/// The entries tell of the windows, taken in the given order.
pub open spec fn lists(r: Seq<WindowInfo>, ws: Seq<WindowFacts>, order: Seq<usize>) -> bool {
    &&& r.len() == order.len()
    &&& forall|i: int| 0 <= i < r.len() ==> describes(#[trigger] r[i], ws[order[i] as int])
}

/// The first place at which `f` holds is `i`.
pub open spec fn is_first(ws: Seq<WindowFacts>, f: spec_fn(WindowFacts) -> bool, i: int) -> bool {
    0 <= i < ws.len() && f(ws[i]) && forall|j: int| 0 <= j < i ==> !f(#[trigger] ws[j])
}

/// `f` holds at no place.
pub open spec fn at_none(ws: Seq<WindowFacts>, f: spec_fn(WindowFacts) -> bool) -> bool {
    forall|j: int| 0 <= j < ws.len() ==> !f(#[trigger] ws[j])
}

/// A window to capture.
#[derive(Clone, Copy, PartialEq, Eq, Structural, Debug)]
pub struct WindowCapture {
    pub window_id: u32,
}

impl WindowCapture {
    pub fn new(window_id: u32) -> (r: Self)
        ensures
            r.window_id == window_id,
    {
        WindowCapture { window_id }
    }

    /// The first window whose title holds the text.
    pub fn from_title(title: &str, windows: &[WindowFacts]) -> (r: Result<Self, WindowError>)
        ensures
            ({
                let f = |w: WindowFacts| w.titled(title@);
                &&& at_none(windows@, f) ==> r == Err::<Self, WindowError>(WindowError::NoSuchTitle)
                &&& forall|i: int| #[trigger]
                    is_first(windows@, f, i) ==> (match windows@[i].id {
                        Some(id) => r == Ok::<Self, WindowError>(WindowCapture { window_id: id }),
                        None => r == Err::<Self, WindowError>(WindowError::Unreadable),
                    })
            }),
    {
        let ghost f = |w: WindowFacts| w.titled(title@);
        for i in 0..windows.len()
            invariant
                f == (|w: WindowFacts| w.titled(title@)),
                forall|j: int| 0 <= j < i ==> !f(#[trigger] windows@[j]),
        {
            if windows[i].has_title(title) {
                assert(f(windows@[i as int]));
                return match windows[i].id {
                    Some(id) => Ok(WindowCapture::new(id)),
                    None => Err(WindowError::Unreadable),
                };
            }
        }
        Err(WindowError::NoSuchTitle)
    }

    /// The first window that can be in use.
    pub fn focused(windows: &[WindowFacts]) -> (r: Result<Self, WindowError>)
        ensures
            ({
                let f = |w: WindowFacts| w.focusable();
                &&& at_none(windows@, f) ==> r == Err::<Self, WindowError>(WindowError::NoneFocused)
                &&& forall|i: int| #[trigger]
                    is_first(windows@, f, i) ==> (match windows@[i].id {
                        Some(id) => r == Ok::<Self, WindowError>(WindowCapture { window_id: id }),
                        None => r == Err::<Self, WindowError>(WindowError::Unreadable),
                    })
            }),
    {
        let ghost f = |w: WindowFacts| w.focusable();
        for i in 0..windows.len()
            invariant
                f == (|w: WindowFacts| w.focusable()),
                forall|j: int| 0 <= j < i ==> !f(#[trigger] windows@[j]),
        {
            if windows[i].can_be_in_use() {
                assert(f(windows@[i as int]));
                return match windows[i].id {
                    Some(id) => Ok(WindowCapture::new(id)),
                    None => Err(WindowError::Unreadable),
                };
            }
        }
        Err(WindowError::NoneFocused)
    }

    /// The place of the window among those that the system lists.
    pub fn find_window(&self, windows: &[WindowFacts]) -> (r: Result<usize, WindowError>)
        ensures
            ({
                let f = |w: WindowFacts| w.id == Some(self.window_id);
                match r {
                    Ok(i) => is_first(windows@, f, i as int),
                    Err(e) => e == WindowError::NoSuchId && at_none(windows@, f),
                }
            }),
    {
        let ghost f = |w: WindowFacts| w.id == Some(self.window_id);
        for i in 0..windows.len()
            invariant
                f == (|w: WindowFacts| w.id == Some(self.window_id)),
                forall|j: int| 0 <= j < i ==> !f(#[trigger] windows@[j]),
        {
            match windows[i].id {
                Some(id) => {
                    if id == self.window_id {
                        return Ok(i);
                    }
                },
                None => {},
            }
        }
        Err(WindowError::NoSuchId)
    }

    /// The windows that can be offered, in the order of their titles; windows
    /// of one title keep their order.
    pub fn list_application_windows(windows: &[WindowFacts]) -> (r: Vec<WindowInfo>)
        ensures
            exists|order: Seq<usize>|
                order::is_alphabetic(titles(listables(windows@)), order) && #[trigger] lists(
                    r@,
                    listables(windows@),
                    order,
                ),
    {
        let mut found: Vec<WindowInfo> = Vec::new();
        let mut names: Vec<String> = Vec::new();
        for i in 0..windows.len()
            invariant
                found@.len() == names@.len(),
                names@.len() == listables(windows@.take(i as int)).len(),
                forall|k: int|
                    0 <= k < found@.len() ==> describes(
                        #[trigger] found@[k],
                        listables(windows@.take(i as int))[k],
                    ) && names@[k]@ == found@[k].title@,
        {
            assert(windows@.take(i + 1).drop_last() =~= windows@.take(i as int));
            match windows[i].listed() {
                Some(w) => {
                    names.push(w.title.clone());
                    found.push(w);
                },
                None => {},
            }
        }
        assert(windows@.take(windows@.len() as int) =~= windows@);
        let ghost all = listables(windows@);
        assert(text::texts(names@) =~= titles(all)) by {
            assert forall|k: int| 0 <= k < names@.len() implies text::texts(names@)[k] == #[trigger] titles(
                all,
            )[k] by {
                assert(describes(found@[k], all[k]));
            }
        }
        let by_title = order::alphabetically(&names);
        let mut r: Vec<WindowInfo> = Vec::new();
        for i in 0..by_title.len()
            invariant
                order::lists_all(by_title@, found@.len() as int),
                found@.len() == all.len(),
                forall|k: int| 0 <= k < found@.len() ==> describes(#[trigger] found@[k], all[k]),
                r@.len() == i,
                forall|k: int| 0 <= k < i ==> describes(#[trigger] r@[k], all[by_title@[k] as int]),
        {
            let w = &found[by_title[i]];
            assert(describes(*w, all[by_title@[i as int] as int]));
            r.push(
                WindowInfo {
                    id: w.id,
                    title: w.title.clone(),
                    app_name: w.app_name.clone(),
                    x: w.x,
                    y: w.y,
                    width: w.width,
                    height: w.height,
                },
            );
        }
        assert(lists(r@, all, by_title@));
        r
    }
}

// ---- how a window is captured ------------------------------------------------------------

/// A way to capture a window.
#[derive(Clone, Copy, PartialEq, Eq, Structural, Debug)]
pub enum WindowSource {
    /// The system's own capture, which tone-maps.
    Graphics,
    /// The part of the screen that the window covers.
    Region,
    /// The window's own surface, from the list of windows.
    Listed,
}

/// The ways to capture a window, in the order in which they are tried.
///
/// On an HDR display the system's capture, or the screen where it is switched
/// off, comes first. The window's own surface follows, or the screen where the
/// window is not listed and its place can be asked for.
pub fn window_sources(on_hdr: bool, graphics_on: bool, listed: bool, can_locate: bool) -> (r: Vec<
    WindowSource,
>)
    ensures
        r@ == (if on_hdr {
            seq![
                if graphics_on {
                    WindowSource::Graphics
                } else {
                    WindowSource::Region
                },
            ]
        } else {
            Seq::empty()
        }) + (if listed {
            seq![WindowSource::Listed]
        } else if can_locate {
            seq![WindowSource::Region]
        } else {
            Seq::empty()
        }),
{
    let mut r: Vec<WindowSource> = Vec::new();
    if on_hdr {
        r.push(
            if graphics_on {
                WindowSource::Graphics
            } else {
                WindowSource::Region
            },
        );
    }
    if listed {
        r.push(WindowSource::Listed);
    } else if can_locate {
        r.push(WindowSource::Region);
    }
    r
}

/// A number halved, rounded towards nought.
pub open spec fn halved(n: int) -> int {
    if n >= 0 {
        n / 2
    } else {
        -((-n) / 2)
    }
}

fn half(n: i32) -> (r: i32)
    ensures
        r == halved(n as int),
{
    if n >= 0 {
        n / 2
    } else if n == i32::MIN {
        -1073741824
    } else {
        -((-n) / 2)
    }
}

/// The middle of a window's frame.
pub fn frame_center(left: i32, top: i32, right: i32, bottom: i32) -> (p: (i32, i32))
    requires
        i32::MIN <= left + right <= i32::MAX,
        i32::MIN <= top + bottom <= i32::MAX,
    ensures
        p.0 == halved(left + right),
        p.1 == halved(top + bottom),
{
    (half(left + right), half(top + bottom))
}

/// The part of the screen within a window's frame, at least one pixel wide and
/// high.
pub fn frame_rect(left: i32, top: i32, right: i32, bottom: i32) -> (r: Rectangle)
    requires
        i32::MIN <= right - left <= i32::MAX,
        i32::MIN <= bottom - top <= i32::MAX,
    ensures
        r.x == left,
        r.y == top,
        r.width == (if right - left >= 1 {
            right - left
        } else {
            1
        }),
        r.height == (if bottom - top >= 1 {
            bottom - top
        } else {
            1
        }),
{
    let w: i32 = right - left;
    let h: i32 = bottom - top;
    Rectangle {
        x: left,
        y: top,
        width: if w >= 1 {
            w as u32
        } else {
            1
        },
        height: if h >= 1 {
            h as u32
        } else {
            1
        },
    }
}

/// The part of the screen that a window covers whose corner and size the
/// server gave, at least one pixel wide and high.
pub fn geometry_rect(x: i16, y: i16, width: u16, height: u16) -> (r: Rectangle)
    ensures
        r.x == x,
        r.y == y,
        r.width == (if width >= 1 {
            width as int
        } else {
            1
        }),
        r.height == (if height >= 1 {
            height as int
        } else {
            1
        }),
{
    Rectangle {
        x: x as i32,
        y: y as i32,
        width: if width >= 1 {
            width as u32
        } else {
            1
        },
        height: if height >= 1 {
            height as u32
        } else {
            1
        },
    }
}

// ---- laws --------------------------------------------------------------------------------------

proof fn lemma_first_or_none(ws: Seq<WindowFacts>, f: spec_fn(WindowFacts) -> bool, n: int)
    requires
        0 <= n <= ws.len(),
    ensures
        (forall|j: int| 0 <= j < n ==> !f(#[trigger] ws[j])) || (exists|i: int|
            i < n && #[trigger] is_first(ws, f, i)),
    decreases n,
{
    if n > 0 {
        lemma_first_or_none(ws, f, n - 1);
        if forall|j: int| 0 <= j < n - 1 ==> !f(#[trigger] ws[j]) {
            if f(ws[n - 1]) {
                assert(is_first(ws, f, n - 1));
            }
        } else {
            let i = choose|i: int| i < n - 1 && #[trigger] is_first(ws, f, i);
            assert(i < n && is_first(ws, f, i));
        }
    }
}

/// The window of a title is the first whose title holds the text. Where none does,
/// none is found.
pub proof fn lemma_window_of_the_title(
    title: &str,
    windows: &[WindowFacts],
    r: Result<WindowCapture, WindowError>,
)
    requires
        call_ensures(WindowCapture::from_title, (title, windows), r),
    ensures
        r matches Ok(c) ==> exists|i: int|
            0 <= i < windows@.len() && (#[trigger] windows@[i]).id == Some(c.window_id)
                && windows@[i].title is Some && text::contains(windows@[i].title->0@, title@)
                && forall|j: int|
                0 <= j < i && (#[trigger] windows@[j]).title is Some ==> !text::contains(
                    windows@[j].title->0@,
                    title@,
                ),
        (forall|j: int|
            0 <= j < windows@.len() && (#[trigger] windows@[j]).title is Some ==> !text::contains(
                windows@[j].title->0@,
                title@,
            )) ==> r == Err::<WindowCapture, WindowError>(WindowError::NoSuchTitle),
{
    let f = |w: WindowFacts| w.titled(title@);
    lemma_first_or_none(windows@, f, windows@.len() as int);
    if exists|i: int| i < windows@.len() && #[trigger] is_first(windows@, f, i) {
        let i = choose|i: int| i < windows@.len() && #[trigger] is_first(windows@, f, i);
        assert(f(windows@[i]));
        assert(windows@[i].title is Some && text::contains(windows@[i].title->0@, title@));
        assert forall|j: int|
            0 <= j < i && (#[trigger] windows@[j]).title is Some implies !text::contains(
            windows@[j].title->0@,
            title@,
        ) by {
            assert(!f(windows@[j]));
        }
    } else {
        assert(at_none(windows@, f));
    }
}

/// The window in use is the first that is not minimised and has a title. One
/// whose state is not known does not count.
pub proof fn lemma_window_in_use(windows: &[WindowFacts], c: WindowCapture)
    requires
        call_ensures(WindowCapture::focused, (windows,), Ok(c)),
    ensures
        exists|i: int|
            0 <= i < windows@.len() && (#[trigger] windows@[i]).id == Some(c.window_id)
                && windows@[i].minimized == Some(false) && windows@[i].title is Some
                && windows@[i].title->0@.len() > 0,
{
    let f = |w: WindowFacts| w.focusable();
    lemma_first_or_none(windows@, f, windows@.len() as int);
    if exists|i: int| i < windows@.len() && #[trigger] is_first(windows@, f, i) {
        let i = choose|i: int| i < windows@.len() && #[trigger] is_first(windows@, f, i);
        assert(f(windows@[i]));
        assert(windows@[i].id == Some(c.window_id));
    } else {
        assert(at_none(windows@, f));
    }
}

/// A window is found by its id, and by nothing else.
pub proof fn lemma_window_is_found_by_its_id(
    c: WindowCapture,
    windows: &[WindowFacts],
    r: Result<usize, WindowError>,
    j: int,
)
    requires
        call_ensures(WindowCapture::find_window, (&c, windows), r),
        0 <= j < windows@.len(),
    ensures
        r matches Ok(i) ==> i < windows@.len() && windows@[i as int].id == Some(c.window_id) && (
        windows@[j].id == Some(c.window_id) ==> i <= j),
        r is Err ==> windows@[j].id != Some(c.window_id),
{
    let f = |w: WindowFacts| w.id == Some(c.window_id);
    assert(f(windows@[j]) <==> windows@[j].id == Some(c.window_id));
}

proof fn lemma_listables(ws: Seq<WindowFacts>)
    ensures
        forall|i: int|
            0 <= i < listables(ws).len() ==> (#[trigger] listables(ws)[i]).listable()
                && ws.contains(listables(ws)[i]),
        forall|j: int|
            0 <= j < ws.len() && (#[trigger] ws[j]).listable() ==> listables(ws).contains(ws[j]),
    decreases ws.len(),
{
    if ws.len() > 0 {
        let rest = ws.drop_last();
        lemma_listables(rest);
        assert forall|i: int| 0 <= i < listables(ws).len() implies (#[trigger] listables(
            ws,
        )[i]).listable() && ws.contains(listables(ws)[i]) by {
            if i < listables(rest).len() {
                assert(listables(ws)[i] == listables(rest)[i]);
                assert(rest.contains(listables(rest)[i]));
                let k = choose|k: int| 0 <= k < rest.len() && rest[k] == listables(rest)[i];
                assert(ws[k] == listables(ws)[i]);
            } else {
                assert(ws[ws.len() - 1] == listables(ws)[i]);
            }
        }
        assert forall|j: int| 0 <= j < ws.len() && (#[trigger] ws[j]).listable() implies listables(
            ws,
        ).contains(ws[j]) by {
            if j < ws.len() - 1 {
                assert(rest[j] == ws[j]);
                assert(listables(rest).contains(rest[j]));
                let k = choose|k: int|
                    0 <= k < listables(rest).len() && listables(rest)[k] == rest[j];
                assert(listables(ws)[k] == ws[j]);
            } else {
                assert(listables(ws)[listables(rest).len() as int] == ws[j]);
            }
        }
    }
}

/// The windows that are offered have a title, are not minimised and are more than
/// fifty pixels wide and high; they stand where the list says, and their titles
/// are in the order of the alphabet.
pub proof fn lemma_offered_windows_can_be_seen(
    windows: &[WindowFacts],
    r: Vec<WindowInfo>,
    i: int,
)
    requires
        call_ensures(WindowCapture::list_application_windows, (windows,), r),
        0 <= i < r@.len(),
    ensures
        r@[i].title@.len() > 0,
        r@[i].width > 50 && r@[i].height > 50,
        exists|k: int|
            0 <= k < windows@.len() && (#[trigger] windows@[k]).id == Some(r@[i].id)
                && windows@[k].minimized == Some(false) && windows@[k].x == Some(r@[i].x)
                && windows@[k].y == Some(r@[i].y) && windows@[k].width == Some(r@[i].width)
                && windows@[k].height == Some(r@[i].height) && windows@[k].title is Some
                && windows@[k].title->0@ == r@[i].title@,
        forall|j: int|
            i < j < r@.len() ==> !order::text_less((#[trigger] r@[j]).title@, r@[i].title@),
{
    let all = listables(windows@);
    lemma_listables(windows@);
    let order = choose|order: Seq<usize>|
        order::is_alphabetic(titles(all), order) && #[trigger] lists(r@, all, order);
    assert(describes(r@[i], all[order[i] as int]));
    let w = all[order[i] as int];
    assert(w.listable() && windows@.contains(w));
    let k = choose|k: int| 0 <= k < windows@.len() && windows@[k] == w;
    assert(windows@[k].id == Some(r@[i].id));
    assert forall|j: int| i < j < r@.len() implies !order::text_less(
        (#[trigger] r@[j]).title@,
        r@[i].title@,
    ) by {
        assert(describes(r@[j], all[order[j] as int]));
        assert(order::alphabetic(titles(all), order[i], order[j]));
        assert(titles(all)[order[i] as int] == r@[i].title@);
        assert(titles(all)[order[j] as int] == r@[j].title@);
        order::lemma_one_text_comes_first(r@[i].title@, r@[j].title@);
    }
}

/// Every window that can be seen is offered.
pub proof fn lemma_visible_windows_are_offered(
    windows: &[WindowFacts],
    r: Vec<WindowInfo>,
    k: int,
)
    requires
        call_ensures(WindowCapture::list_application_windows, (windows,), r),
        0 <= k < windows@.len(),
        windows@[k].minimized == Some(false),
        windows@[k].title is Some && windows@[k].title->0@.len() > 0,
        windows@[k].width is Some && windows@[k].width->0 > 50,
        windows@[k].height is Some && windows@[k].height->0 > 50,
        windows@[k].id is Some && windows@[k].app_name is Some,
        windows@[k].x is Some && windows@[k].y is Some,
    ensures
        exists|i: int|
            0 <= i < r@.len() && windows@[k].id == Some((#[trigger] r@[i]).id)
                && windows@[k].title->0@ == r@[i].title@,
{
    let all = listables(windows@);
    lemma_listables(windows@);
    let order = choose|order: Seq<usize>|
        order::is_alphabetic(titles(all), order) && #[trigger] lists(r@, all, order);
    assert(windows@[k].listable());
    assert(all.contains(windows@[k]));
    let p = choose|p: int| 0 <= p < all.len() && all[p] == windows@[k];
    assert(order::lists_all(order, titles(all).len() as int));
    assert(order.len() == all.len());
    assert(exists|i: int| 0 <= i < order.len() && order[i] as int == p) by {
        assert(r@.len() == order.len());
        assert(r.len() == all.len());
        assert(order.contains(p as usize));
        let q = choose|q: int| 0 <= q < order.len() && order[q] == p as usize;
        assert(order[q] as int == p);
    }
    let i = choose|i: int| 0 <= i < order.len() && order[i] as int == p;
    assert(describes(r@[i], all[order[i] as int]));
}

/// A window's own surface is taken where it is listed, and its part of the screen
/// where it is not. What knows of brightness comes before both.
pub proof fn lemma_bright_sources_come_first(
    on_hdr: bool,
    graphics_on: bool,
    listed: bool,
    can_locate: bool,
    r: Vec<WindowSource>,
)
    requires
        call_ensures(window_sources, (on_hdr, graphics_on, listed, can_locate), r),
    ensures
        on_hdr && graphics_on ==> r@.len() > 0 && r@[0] == WindowSource::Graphics,
        on_hdr && !graphics_on ==> r@.len() > 0 && r@[0] == WindowSource::Region,
        listed ==> r@.len() > 0 && r@.last() == WindowSource::Listed,
        !listed && can_locate ==> r@.len() > 0 && r@.last() == WindowSource::Region,
        !listed ==> !r@.contains(WindowSource::Listed),
        !(on_hdr && graphics_on) ==> !r@.contains(WindowSource::Graphics),
{
}

/// The middle of a frame lies halfway between its edges, to within a pixel.
pub proof fn lemma_frame_center_is_halfway(
    left: i32,
    top: i32,
    right: i32,
    bottom: i32,
    p: (i32, i32),
)
    requires
        call_ensures(frame_center, (left, top, right, bottom), p),
    ensures
        -1 <= (right - p.0) - (p.0 - left) <= 1,
        -1 <= (bottom - p.1) - (p.1 - top) <= 1,
{
}

/// A frame covers what lies between its edges, and a window what lies within its
/// sides.
pub proof fn lemma_frames_cover_their_inside(
    left: i32,
    top: i32,
    right: i32,
    bottom: i32,
    r: Rectangle,
    x: int,
    y: int,
)
    requires
        call_ensures(frame_rect, (left, top, right, bottom), r),
        left < right,
        top < bottom,
    ensures
        r.covers(x, y) <==> left <= x < right && top <= y < bottom,
{
}

/// A window covers what lies within its sides.
pub proof fn lemma_geometry_covers_its_sides(
    x: i16,
    y: i16,
    width: u16,
    height: u16,
    r: Rectangle,
    px: int,
    py: int,
)
    requires
        call_ensures(geometry_rect, (x, y, width, height), r),
        width > 0,
        height > 0,
    ensures
        r.covers(px, py) <==> 0 <= px - x < width && 0 <= py - y < height,
{
}

} // verus!
