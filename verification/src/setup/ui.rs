//! The installer's window: what is on each of its pages, and what a click on
//! them does. Places are in units of its design, which are scaled when drawn.

use vstd::prelude::*;

use crate::text;

verus! {

pub const WIN_W: i32 = 560;

pub const WIN_H: i32 = 380;

/// How tall the part is by which the window is moved, and how far it reaches.
pub const CAPTION_HEIGHT: i32 = 64;

pub const CAPTION_WIDTH: i32 = 508;

// ---- inks ------------------------------------------------------------------------------------

/// A shade of the window.
#[derive(Clone, Copy, PartialEq, Eq, Structural, Debug)]
pub enum Ink {
    Ink0,
    Background,
    Surface,
    Rule,
    Rule2,
    Mute,
    Text,
    Text2,
    Paper,
    PaperDim,
}

impl Ink {
    /// How bright the shade is.
    pub open spec fn level(&self) -> u8 {
        match *self {
            Ink::Ink0 => 0x05,
            Ink::Background => 0x14,
            Ink::Surface => 0x1c,
            Ink::Rule => 0x2a,
            Ink::Rule2 => 0x3a,
            Ink::Mute => 0x6f,
            Ink::Text => 0xc4,
            Ink::Text2 => 0xed,
            Ink::Paper => 0xf5,
            Ink::PaperDim => 0xdc,
        }
    }

    /// The shade as the system takes it.
    pub fn color(&self) -> (r: u32)
        ensures
            r == packed(self.level(), self.level(), self.level()),
    {
        let v: u8 = match *self {
            Ink::Ink0 => 0x05,
            Ink::Background => 0x14,
            Ink::Surface => 0x1c,
            Ink::Rule => 0x2a,
            Ink::Rule2 => 0x3a,
            Ink::Mute => 0x6f,
            Ink::Text => 0xc4,
            Ink::Text2 => 0xed,
            Ink::Paper => 0xf5,
            Ink::PaperDim => 0xdc,
        };
        rgb(v, v, v)
    }
}

/// A color as the system takes it: red in the lowest byte.
pub open spec fn packed(r: u8, g: u8, b: u8) -> int {
    b * 0x1_0000 + g * 0x100 + r
}

/// A color as the system takes it.
pub fn rgb(r: u8, g: u8, b: u8) -> (c: u32)
    ensures
        c == packed(r, g, b),
{
    b as u32 * 0x1_0000 + g as u32 * 0x100 + r as u32
}

// ---- pages and what can be hit ---------------------------------------------------------------

#[derive(Clone, Copy, PartialEq, Eq, Structural, Debug)]
pub enum Page {
    Welcome,
    Progress,
    Done,
    Error,
    RemoveConfirm,
    Removed,
}

/// What can be clicked on.
#[derive(Clone, Copy, PartialEq, Eq, Structural, Debug)]
pub enum Hit {
    Close,
    Install,
    Launch,
    Quit,
    Remove,
    Cancel,
}

/// What can be clicked on, and where. The right and the lower edge lie outside.
#[derive(Clone, Copy, PartialEq, Eq, Structural, Debug)]
pub struct HitRect {
    pub hit: Hit,
    pub left: i32,
    pub top: i32,
    pub right: i32,
    pub bottom: i32,
}

impl HitRect {
    pub open spec fn covers(&self, x: int, y: int) -> bool {
        self.left <= x < self.right && self.top <= y < self.bottom
    }

    /// Whether the point lies inside.
    pub fn contains(&self, x: i32, y: i32) -> (r: bool)
        ensures
            r == self.covers(x as int, y as int),
    {
        x >= self.left && x < self.right && y >= self.top && y < self.bottom
    }
}

pub open spec fn close_rect() -> HitRect {
    HitRect { hit: Hit::Close, left: 516, top: 12, right: 548, bottom: 44 }
}

/// A button of a page.
pub open spec fn button_rect(hit: Hit, page: Page) -> HitRect {
    match hit {
        Hit::Close => close_rect(),
        Hit::Install => HitRect { hit, left: 180, top: 266, right: 380, bottom: 306 },
        Hit::Launch => HitRect { hit, left: 130, top: 230, right: 270, bottom: 270 },
        Hit::Remove => HitRect { hit, left: 130, top: 230, right: 270, bottom: 270 },
        Hit::Cancel => HitRect { hit, left: 290, top: 230, right: 430, bottom: 270 },
        Hit::Quit => if page == Page::Done {
            HitRect { hit, left: 290, top: 230, right: 430, bottom: 270 }
        } else {
            HitRect { hit, left: 210, top: 280, right: 350, bottom: 320 }
        },
    }
}

/// What can be clicked on, besides the mark that closes the window.
pub open spec fn buttons(page: Page) -> Seq<Hit> {
    match page {
        Page::Welcome => seq![Hit::Install],
        Page::Done => seq![Hit::Launch, Hit::Quit],
        Page::Error => seq![Hit::Quit],
        Page::Removed => seq![Hit::Quit],
        Page::RemoveConfirm => seq![Hit::Remove, Hit::Cancel],
        Page::Progress => Seq::empty(),
    }
}

/// What can be clicked on on a page, and where.
pub open spec fn rects(page: Page) -> Seq<HitRect> {
    seq![close_rect()] + Seq::new(
        buttons(page).len(),
        |i: int| button_rect(buttons(page)[i], page),
    )
}

/// What can be clicked on on a page, and where.
pub fn hit_rects(page: Page) -> (r: Vec<HitRect>)
    ensures
        r@ == rects(page),
{
    let mut v: Vec<HitRect> = Vec::new();
    v.push(
        HitRect { hit: Hit::Close, left: WIN_W - 44, top: 12, right: WIN_W - 12, bottom: 44 },
    );
    let mid: i32 = WIN_W / 2;
    match page {
        Page::Welcome => {
            v.push(
                HitRect {
                    hit: Hit::Install,
                    left: mid - 100,
                    top: 266,
                    right: mid + 100,
                    bottom: 306,
                },
            );
        },
        Page::Done => {
            v.push(
                HitRect {
                    hit: Hit::Launch,
                    left: mid - 150,
                    top: 230,
                    right: mid - 10,
                    bottom: 270,
                },
            );
            v.push(
                HitRect { hit: Hit::Quit, left: mid + 10, top: 230, right: mid + 150, bottom: 270 },
            );
        },
        Page::Error | Page::Removed => {
            v.push(
                HitRect { hit: Hit::Quit, left: mid - 70, top: 280, right: mid + 70, bottom: 320 },
            );
        },
        Page::RemoveConfirm => {
            v.push(
                HitRect {
                    hit: Hit::Remove,
                    left: mid - 150,
                    top: 230,
                    right: mid - 10,
                    bottom: 270,
                },
            );
            v.push(
                HitRect {
                    hit: Hit::Cancel,
                    left: mid + 10,
                    top: 230,
                    right: mid + 150,
                    bottom: 270,
                },
            );
        },
        Page::Progress => {},
    }
    assert(v@ =~= rects(page));
    v
}

/// The first of the places that the point lies in.
pub open spec fn hit_in(r: Seq<HitRect>, x: int, y: int) -> Option<Hit>
    decreases r.len(),
{
    if r.len() == 0 {
        None
    } else if r[0].covers(x, y) {
        Some(r[0].hit)
    } else {
        hit_in(r.skip(1), x, y)
    }
}

/// What a point lies on.
pub fn hit_at(r: &[HitRect], x: i32, y: i32) -> (h: Option<Hit>)
    ensures
        h == hit_in(r@, x as int, y as int),
{
    let n: usize = r.len();
    assert(r@.skip(0) =~= r@);
    for i in 0..n
        invariant
            n == r@.len(),
            hit_in(r@, x as int, y as int) == hit_in(r@.skip(i as int), x as int, y as int),
    {
        assert(r@.skip(i as int)[0] == r@[i as int]);
        assert(r@.skip(i as int).skip(1) =~= r@.skip(i + 1));
        if r[i].contains(x, y) {
            return Some(r[i].hit);
        }
    }
    None
}

/// What is hit is one of the places.
pub proof fn lemma_hit_is_there(r: Seq<HitRect>, x: int, y: int)
    requires
        hit_in(r, x, y) is Some,
    ensures
        exists|i: int| 0 <= i < r.len() && (#[trigger] r[i]).hit == hit_in(r, x, y)->0,
    decreases r.len(),
{
    if !r[0].covers(x, y) {
        lemma_hit_is_there(r.skip(1), x, y);
        let i = choose|i: int|
            0 <= i < r.skip(1).len() && (#[trigger] r.skip(1)[i]).hit == hit_in(r, x, y)->0;
        assert(r[i + 1].hit == hit_in(r, x, y)->0);
    }
}

/// Where the pointer is, from a message of the system: two signed numbers of
/// sixteen bits.
pub open spec fn signed16(n: u32) -> int {
    if n < 0x8000 {
        n as int
    } else {
        n - 0x1_0000
    }
}

/// Where the pointer is, from a message of the system: its column in the lower
/// sixteen bits, its row in the upper.
pub fn pointer_at(lparam: u32) -> (p: (i32, i32))
    ensures
        p.0 == signed16(lparam % 0x1_0000),
        p.1 == signed16(lparam / 0x1_0000),
{
    let x: u32 = lparam % 0x1_0000;
    let y: u32 = lparam / 0x1_0000;
    (
        if x < 0x8000 {
            x as i32
        } else {
            x as i32 - 0x1_0000
        },
        if y < 0x8000 {
            y as i32
        } else {
            y as i32 - 0x1_0000
        },
    )
}

/// Whether the window is moved by the point. `width` and `height` are those of
/// the part that moves it, scaled.
pub fn in_caption(x: i32, y: i32, width: i32, height: i32) -> (r: bool)
    ensures
        r == (x < width && y < height),
{
    y < height && x < width
}

// ---- the state of the window -----------------------------------------------------------------

/// The window as it is shown.
#[derive(Debug)]
pub struct State {
    pub page: Page,
    pub error: String,
    pub removing: bool,
    pub hover: Option<Hit>,
}

/// What a click leads to.
#[derive(Clone, Copy, PartialEq, Eq, Structural, Debug)]
pub enum ClickStep {
    /// Nothing was clicked on.
    Nothing,
    /// The window is drawn anew.
    Repaint,
    Quit,
    /// The program is installed.
    Install,
    /// The program is removed.
    Remove,
    /// The program is started, and the window closed.
    Launch,
}

/// What a click on the page leads to. While the system's installer works the
/// window cannot be closed.
pub open spec fn click(page: Page, hit: Option<Hit>) -> ClickStep {
    match hit {
        None => ClickStep::Nothing,
        Some(Hit::Install) => ClickStep::Install,
        Some(Hit::Remove) => ClickStep::Remove,
        Some(Hit::Launch) => ClickStep::Launch,
        Some(_) => if page == Page::Progress {
            ClickStep::Repaint
        } else {
            ClickStep::Quit
        },
    }
}

impl State {
    pub fn new(page: Page) -> (r: Self)
        ensures
            r.page == page,
            r.error@.len() == 0,
            !r.removing,
            r.hover is None,
    {
        State { page, error: String::new(), removing: false, hover: None }
    }

    /// The pointer was moved to what it lies on. Whether the window is drawn
    /// anew.
    pub fn on_mouse_move(&mut self, hit: Option<Hit>) -> (changed: bool)
        ensures
            *final(self) == (State { hover: hit, ..*old(self) }),
            changed == (old(self).hover != hit),
    {
        let changed = match self.hover {
            None => hit.is_some(),
            Some(a) => match hit {
                None => true,
                Some(b) => a != b,
            },
        };
        self.hover = hit;
        changed
    }

    /// The button of the mouse was released over what it lies on.
    pub fn on_click(&mut self, hit: Option<Hit>) -> (step: ClickStep)
        ensures
            step == click(old(self).page, hit),
            *final(self) == (if step == ClickStep::Install || step == ClickStep::Remove { State { page: Page::Progress, removing: step == ClickStep::Remove, ..*old(self) } } else { *old(self) }),
    {
        let step = match hit {
            None => ClickStep::Nothing,
            Some(Hit::Install) => ClickStep::Install,
            Some(Hit::Remove) => ClickStep::Remove,
            Some(Hit::Launch) => ClickStep::Launch,
            Some(_) => match self.page {
                Page::Progress => ClickStep::Repaint,
                _ => ClickStep::Quit,
            },
        };
        match step {
            ClickStep::Install => self.start_engine(false),
            ClickStep::Remove => self.start_engine(true),
            _ => {},
        }
        step
    }

    /// The system's installer was started.
    pub fn start_engine(&mut self, removing: bool)
        ensures
            *final(self) == (State { page: Page::Progress, removing, ..*old(self) }),
    {
        self.page = Page::Progress;
        self.removing = removing;
    }

    /// The system's installer is done.
    pub fn engine_done(&mut self, outcome: Result<(), String>)
        ensures
            final(self).page == (match outcome { Err(_) => Page::Error, Ok(_) => if old(self).removing { Page::Removed } else { Page::Done } }),
            final(self).error@ == (match outcome { Err(e) => e@, Ok(_) => old(self).error@ }),
            final(self).removing == old(self).removing,
            final(self).hover == old(self).hover,
    {
        match outcome {
            Ok(()) => {
                if self.removing {
                    self.page = Page::Removed;
                } else {
                    self.page = Page::Done;
                }
            },
            Err(e) => {
                self.page = Page::Error;
                self.error = e;
            },
        }
    }

    /// Whether the mark of progress moves on. Else its timer ends.
    pub fn on_timer(&self) -> (r: bool)
        ensures
            r == (self.page == Page::Progress),
    {
        match self.page {
            Page::Progress => true,
            _ => false,
        }
    }
}

/// A click that hits something of a page installs only from the first page and
/// removes only from the page that asks for it, and while the system's installer
/// works it does nothing.
pub proof fn lemma_clicks_fit_the_page(page: Page, x: int, y: int)
    ensures
        click(page, hit_in(rects(page), x, y)) == ClickStep::Install ==> page == Page::Welcome,
        click(page, hit_in(rects(page), x, y)) == ClickStep::Remove ==> page
            == Page::RemoveConfirm,
        click(page, hit_in(rects(page), x, y)) == ClickStep::Launch ==> page == Page::Done,
        page == Page::Progress ==> click(page, hit_in(rects(page), x, y)) == ClickStep::Nothing
            || click(page, hit_in(rects(page), x, y)) == ClickStep::Repaint,
{
    if hit_in(rects(page), x, y) is Some {
        lemma_hit_is_there(rects(page), x, y);
        let i = choose|i: int|
            0 <= i < rects(page).len() && (#[trigger] rects(page)[i]).hit == hit_in(
                rects(page),
                x,
                y,
            )->0;
        if i > 0 {
            assert(rects(page)[i] == button_rect(buttons(page)[i - 1], page));
        }
    }
}

// ---- the text of an error --------------------------------------------------------------------

/// How many bytes fit on a line.
pub const LINE_BYTES: usize = 64;

/// The lines of the words, and the line that has begun. A word that does not fit
/// begins a new line.
pub open spec fn lines_so_far(words: Seq<Seq<char>>) -> (Seq<Seq<char>>, Seq<char>)
    decreases words.len(),
{
    if words.len() == 0 {
        (Seq::empty(), Seq::empty())
    } else {
        let (done, line) = lines_so_far(words.drop_last());
        let word = words.last();
        if text::byte_len(line) + text::byte_len(word) + 1 > LINE_BYTES {
            (done.push(line), word)
        } else if line.len() > 0 {
            (done, line.push(' ') + word)
        } else {
            (done, word)
        }
    }
}

/// The lines of a text.
pub open spec fn lines(s: Seq<char>) -> Seq<Seq<char>> {
    let (done, line) = lines_so_far(text::words(s));
    if line.len() > 0 {
        done.push(line)
    } else {
        done
    }
}

proof fn lemma_byte_len_push(s: Seq<char>, word: Seq<char>)
    ensures
        text::byte_len(s.push(' ') + word) == text::byte_len(s) + 1 + text::byte_len(word),
{
    text::lemma_byte_len_add(s.push(' '), word);
    text::lemma_byte_len_add(s, seq![' ']);
    assert(s.push(' ') =~= s + seq![' ']);
    text::lemma_ascii_len(seq![' ']);
}

/// Each line fits, but for a word that is too long to.
pub open spec fn fits(line: Seq<char>, words: Seq<Seq<char>>) -> bool {
    text::byte_len(line) <= LINE_BYTES || words.contains(line)
}

proof fn lemma_lines_so_far_fit(words: Seq<Seq<char>>)
    ensures
        forall|i: int|
            0 <= i < lines_so_far(words).0.len() ==> fits(
                #[trigger] lines_so_far(words).0[i],
                words,
            ),
        fits(lines_so_far(words).1, words),
    decreases words.len(),
{
    if words.len() == 0 {
        text::lemma_len_bound(Seq::<char>::empty());
        text::lemma_ascii_len(Seq::<char>::empty());
    } else {
        let fewer = words.drop_last();
        lemma_lines_so_far_fit(fewer);
        let (done, line) = lines_so_far(fewer);
        assert forall|l: Seq<char>| fewer.contains(l) implies #[trigger] words.contains(l) by {
            let i = choose|i: int| 0 <= i < fewer.len() && fewer[i] == l;
            assert(words[i] == l);
        }
        assert(words[words.len() - 1] == words.last());
        lemma_byte_len_push(line, words.last());
        assert forall|i: int| 0 <= i < lines_so_far(words).0.len() implies fits(
            #[trigger] lines_so_far(words).0[i],
            words,
        ) by {
            if i < done.len() {
                assert(fits(done[i], fewer));
            }
        }
    }
}

/// Each line of an error fits, but for a word that is too long to.
pub proof fn lemma_error_lines_fit(s: Seq<char>, i: int)
    requires
        0 <= i < lines(s).len(),
    ensures
        text::byte_len(lines(s)[i]) <= LINE_BYTES || text::words(s).contains(lines(s)[i]),
{
    lemma_lines_so_far_fit(text::words(s));
}

/// The lines of an error, as they are shown.
pub fn error_lines(error: &str) -> (r: Vec<String>)
    ensures
        text::texts(r@) == lines(error@),
{
    let words = text::words_of(error);
    let n: usize = words.len();
    let ghost w = text::words(error@);
    let mut out: Vec<String> = Vec::new();
    let mut line = String::new();
    assert(w.take(0) =~= Seq::<Seq<char>>::empty());
    assert(text::texts(out@) =~= Seq::<Seq<char>>::empty());
    assert(line@ =~= Seq::<char>::empty());
    for i in 0..n
        invariant
            n == words@.len(),
            text::texts(words@) == w,
            lines_so_far(w.take(i as int)) == (text::texts(out@), line@),
    {
        assert(w.take(i + 1).drop_last() =~= w.take(i as int));
        assert(w.take(i + 1).last() == words@[i as int]@);
        let a: usize = text::len_of(line.as_str());
        let b: usize = text::len_of(words[i].as_str());
        if a >= LINE_BYTES || b >= LINE_BYTES - a {
            let ghost before = text::texts(out@);
            out.push(line);
            assert(text::texts(out@) =~= before.push(line@));
            line = words[i].clone();
        } else if !line.as_str().is_empty() {
            let ghost prior = line@;
            line.push(' ');
            line.append(words[i].as_str());
            assert(line@ =~= prior.push(' ') + words@[i as int]@);
        } else {
            line = words[i].clone();
        }
    }
    assert(w.take(n as int) =~= w);
    if !line.as_str().is_empty() {
        let ghost before = text::texts(out@);
        out.push(line);
        assert(text::texts(out@) =~= before.push(line@));
    }
    out
}

// ---- the mark of progress --------------------------------------------------------------------

/// The part of the line that is lit: from where, and how long. `step` says how
/// far it has come, up to 550.
pub open spec fn sweep(step: int) -> Option<(int, int)> {
    let pos = step - 110;
    let x0 = 60 + (if pos > 0 {
        pos
    } else {
        0
    });
    let x1 = if 60 + pos + 110 < 500 {
        60 + pos + 110
    } else {
        500
    };
    if x1 > x0 {
        Some((x0, x1 - x0))
    } else {
        None
    }
}

/// The part of the line that is lit.
pub fn sweep_segment(step: i32) -> (r: Option<(i32, i32)>)
    requires
        0 <= step < 550,
    ensures
        match sweep(step as int) {
            Some(s) => r matches Some(t) && t.0 == s.0 && t.1 == s.1,
            None => r is None,
        },
{
    let tx: i32 = 60;
    let tw: i32 = WIN_W - 120;
    let seg: i32 = tw / 4;
    let pos: i32 = step - seg;
    let x0: i32 = tx + (if pos > 0 {
        pos
    } else {
        0
    });
    let end: i32 = tx + pos + seg;
    let x1: i32 = if end < tx + tw {
        end
    } else {
        tx + tw
    };
    if x1 > x0 {
        Some((x0, x1 - x0))
    } else {
        None
    }
}

/// The lit part lies on the line.
pub proof fn lemma_sweep_lies_on_the_line(step: int)
    requires
        0 <= step < 550,
    ensures
        sweep(step) matches Some(s) ==> 60 <= s.0 && s.0 + s.1 <= 500 && 0 < s.1 <= 110,
{
}

// ---- what the installer is asked for ---------------------------------------------------------

/// What the installer is asked for.
#[derive(Debug)]
pub enum SetupMode {
    /// A picture of a page, in a file.
    Preview { out: String, page: Page, scale: Option<String> },
    /// To install without a window.
    Silent,
    /// The window, which begins with the page.
    Window { page: Page },
}

/// The argument is the flag, however it is written.
pub open spec fn is_flag(arg: Seq<char>, flag: Seq<char>) -> bool {
    text::ascii_lower_all(arg) == text::ascii_lower_all(flag)
}

pub open spec fn has_flag(args: Seq<Seq<char>>, flag: Seq<char>) -> bool {
    exists|i: int| 0 <= i < args.len() && #[trigger] is_flag(args[i], flag)
}

/// What stands behind the first such flag.
pub open spec fn value_of(args: Seq<Seq<char>>, flag: Seq<char>) -> Option<Seq<char>>
    decreases args.len(),
{
    if args.len() == 0 {
        None
    } else if is_flag(args[0], flag) {
        if args.len() > 1 {
            Some(args[1])
        } else {
            None
        }
    } else {
        value_of(args.skip(1), flag)
    }
}

/// The page that a name stands for.
pub open spec fn page_named(name: Option<Seq<char>>) -> Page {
    if name == Some("progress"@) {
        Page::Progress
    } else if name == Some("done"@) {
        Page::Done
    } else if name == Some("error"@) {
        Page::Error
    } else if name == Some("remove"@) {
        Page::RemoveConfirm
    } else if name == Some("removed"@) {
        Page::Removed
    } else {
        Page::Welcome
    }
}

fn find_flag(args: &[String], flag: &str) -> (r: bool)
    ensures
        r == has_flag(text::texts(args@), flag@),
{
    let n: usize = args.len();
    let ghost t = text::texts(args@);
    for i in 0..n
        invariant
            n == args@.len(),
            t == text::texts(args@),
            forall|k: int| 0 <= k < i ==> !#[trigger] is_flag(t[k], flag@),
    {
        assert(t[i as int] == args@[i as int]@);
        if text::same_but_for_case(args[i].as_str(), flag) {
            assert(is_flag(t[i as int], flag@));
            return true;
        }
    }
    false
}

fn find_value(args: &[String], flag: &str) -> (r: Option<String>)
    ensures
        text::opt_owned(r) == value_of(text::texts(args@), flag@),
{
    let n: usize = args.len();
    let ghost t = text::texts(args@);
    assert(t.skip(0) =~= t);
    for i in 0..n
        invariant
            n == args@.len(),
            t == text::texts(args@),
            value_of(t, flag@) == value_of(t.skip(i as int), flag@),
    {
        assert(t.skip(i as int)[0] == args@[i as int]@);
        assert(t.skip(i as int).skip(1) =~= t.skip(i + 1));
        if text::same_but_for_case(args[i].as_str(), flag) {
            if i + 1 < n {
                assert(t.skip(i as int)[1] == args@[i + 1]@);
                return Some(args[i + 1].clone());
            }
            return None;
        }
    }
    None
}

fn find_page(name: Option<&str>) -> (r: Page)
    ensures
        r == page_named(text::opt(name)),
{
    match name {
        None => Page::Welcome,
        Some(n) => if text::same(n, "progress") {
            Page::Progress
        } else if text::same(n, "done") {
            Page::Done
        } else if text::same(n, "error") {
            Page::Error
        } else if text::same(n, "remove") {
            Page::RemoveConfirm
        } else if text::same(n, "removed") {
            Page::Removed
        } else {
            Page::Welcome
        },
    }
}

/// What the installer is asked for by its arguments.
pub fn setup_mode(args: &[String]) -> (r: SetupMode)
    ensures
        ({
            let a = text::texts(args@);
            match value_of(a, "--preview"@) {
                Some(path) => r matches SetupMode::Preview { out, page, scale } && out@ == path
                    && page == page_named(value_of(a, "--page"@)) && text::opt_owned(scale)
                    == value_of(a, "--scale"@),
                None => if has_flag(a, "/S"@) {
                    r is Silent
                } else {
                    r matches SetupMode::Window { page } && page == (if has_flag(
                        a,
                        "/uninstall"@,
                    ) || has_flag(a, "--uninstall"@) {
                        Page::RemoveConfirm
                    } else {
                        Page::Welcome
                    })
                },
            }
        }),
{
    match find_value(args, "--preview") {
        Some(out) => {
            let page = match find_value(args, "--page") {
                Some(n) => find_page(Some(n.as_str())),
                None => find_page(None),
            };
            SetupMode::Preview { out, page, scale: find_value(args, "--scale") }
        },
        None => if find_flag(args, "/S") {
            SetupMode::Silent
        } else if find_flag(args, "/uninstall") || find_flag(args, "--uninstall") {
            SetupMode::Window { page: Page::RemoveConfirm }
        } else {
            SetupMode::Window { page: Page::Welcome }
        },
    }
}

// ---- laws --------------------------------------------------------------------------------------

/// Red stands in the lowest byte of a colour, green in the next and blue above.
pub proof fn lemma_red_is_lowest(r: u8, g: u8, b: u8, c: u32)
    requires
        call_ensures(rgb, (r, g, b), c),
    ensures
        c % 256 == r,
        c / 256 % 256 == g,
        c / 65536 == b,
{
}

/// Every shade is grey. From the page to the text they grow brighter.
pub proof fn lemma_shades_are_grey(ink: Ink, c: u32)
    requires
        call_ensures(Ink::color, (&ink,), c),
    ensures
        c % 256 == c / 256 % 256,
        c % 256 == c / 65536,
        ink == Ink::Background ==> 0 < c < 0x20_0000,
        ink == Ink::Ink0 ==> 0 < c < 0x10_0000,
        ink == Ink::Text || ink == Ink::Text2 || ink == Ink::Paper || ink == Ink::PaperDim ==> c
            > 0xc0_0000,
{
}

/// What can be clicked on lies inside the window and is there to be hit; the mark
/// that closes it comes first and lies in the upper right corner.
pub proof fn lemma_buttons_lie_inside(page: Page, r: Vec<HitRect>, i: int)
    requires
        call_ensures(hit_rects, (page,), r),
        0 <= i < r@.len(),
    ensures
        0 <= r@[i].left < r@[i].right <= 560,
        0 <= r@[i].top < r@[i].bottom <= 380,
        r@[0].hit == Hit::Close && r@[0].right == 560 - r@[0].top,
        i > 0 ==> r@[i].top > 64,
        r@[i].hit == Hit::Install ==> page == Page::Welcome,
        r@[i].hit == Hit::Launch ==> page == Page::Done,
        r@[i].hit == Hit::Remove || r@[i].hit == Hit::Cancel ==> page == Page::RemoveConfirm,
        page == Page::Progress ==> r@.len() == 1,
        page == Page::Welcome ==> r@.len() == 2 && r@[1].hit == Hit::Install,
        page == Page::Done ==> r@.len() == 3 && r@[1].hit == Hit::Launch && r@[2].hit == Hit::Quit,
        page == Page::RemoveConfirm ==> r@.len() == 3 && r@[1].hit == Hit::Remove && r@[2].hit
            == Hit::Cancel,
        page == Page::Error || page == Page::Removed ==> r@.len() == 2 && r@[1].hit == Hit::Quit,
{
    let b = buttons(page);
    assert(r@[0] == close_rect());
    if i > 0 {
        assert(r@[i] == button_rect(b[i - 1], page));
    }
    if b.len() > 0 {
        assert(r@[1] == button_rect(b[0], page));
    }
    if b.len() > 1 {
        assert(r@[2] == button_rect(b[1], page));
    }
}

/// One button stands in the middle of the window, and two stand as far from it on
/// the one side as on the other.
pub proof fn lemma_buttons_are_centered(page: Page, r: Vec<HitRect>)
    requires
        call_ensures(hit_rects, (page,), r),
    ensures
        r@.len() == 2 ==> r@[1].left == 560 - r@[1].right,
        r@.len() == 3 ==> r@[1].left == 560 - r@[2].right && r@[1].right == 560 - r@[2].left
            && r@[1].right < r@[2].left && r@[1].top == r@[2].top && r@[1].bottom == r@[2].bottom,
{
    let b = buttons(page);
    if b.len() > 0 {
        assert(r@[1] == button_rect(b[0], page));
    }
    if b.len() > 1 {
        assert(r@[2] == button_rect(b[1], page));
    }
}

/// A point hits what it lies in: to the right of its left edge or on it, to the
/// left of its right one, and so from top to bottom. Elsewhere nothing is hit.
pub proof fn lemma_hit_lies_under_the_point(r: &[HitRect], x: i32, y: i32, h: Option<Hit>, k: int)
    requires
        call_ensures(hit_at, (r, x, y), h),
        0 <= k < r@.len(),
    ensures
        h is None ==> !(r@[k].left <= x < r@[k].right && r@[k].top <= y < r@[k].bottom),
        h matches Some(hit) ==> exists|i: int|
            0 <= i < r@.len() && (#[trigger] r@[i]).hit == hit && r@[i].left <= x < r@[i].right
                && r@[i].top <= y < r@[i].bottom,
{
    lemma_hit(r@, x as int, y as int);
}

proof fn lemma_hit(r: Seq<HitRect>, x: int, y: int)
    ensures
        hit_in(r, x, y) is None ==> forall|k: int|
            0 <= k < r.len() ==> !((#[trigger] r[k]).left <= x < r[k].right && r[k].top <= y
                < r[k].bottom),
        hit_in(r, x, y) matches Some(hit) ==> exists|i: int|
            0 <= i < r.len() && (#[trigger] r[i]).hit == hit && r[i].left <= x < r[i].right
                && r[i].top <= y < r[i].bottom,
    decreases r.len(),
{
    if r.len() > 0 && !r[0].covers(x, y) {
        let rest = r.skip(1);
        lemma_hit(rest, x, y);
        if let Some(hit) = hit_in(rest, x, y) {
            let i = choose|i: int|
                0 <= i < rest.len() && (#[trigger] rest[i]).hit == hit && rest[i].left <= x
                    < rest[i].right && rest[i].top <= y < rest[i].bottom;
            assert(r[i + 1] == rest[i]);
        } else {
            assert forall|k: int| 0 <= k < r.len() implies !((#[trigger] r[k]).left <= x
                < r[k].right && r[k].top <= y < r[k].bottom) by {
                if k > 0 {
                    assert(rest[k - 1] == r[k]);
                }
            }
        }
    }
}

/// A message of the system holds the column of the pointer in its lower half and
/// the row in its upper, each with a sign.
pub proof fn lemma_pointer_is_in_the_message(lparam: u32, p: (i32, i32))
    requires
        call_ensures(pointer_at, (lparam,), p),
    ensures
        -0x8000 <= p.0 < 0x8000,
        -0x8000 <= p.1 < 0x8000,
        lparam == (if p.1 < 0 {
            p.1 + 0x1_0000
        } else {
            p.1 as int
        }) * 0x1_0000 + (if p.0 < 0 {
            p.0 + 0x1_0000
        } else {
            p.0 as int
        }),
{
}

/// A click does what stands on the button. The window closes on everything else
/// that can be hit, but not while the system's installer works.
pub proof fn lemma_clicks_do_what_they_hit(page: Page, hit: Option<Hit>)
    ensures
        hit is None <==> click(page, hit) == ClickStep::Nothing,
        hit == Some(Hit::Install) <==> click(page, hit) == ClickStep::Install,
        hit == Some(Hit::Remove) <==> click(page, hit) == ClickStep::Remove,
        hit == Some(Hit::Launch) <==> click(page, hit) == ClickStep::Launch,
        click(page, hit) == ClickStep::Quit ==> page != Page::Progress,
        page != Page::Progress && (hit == Some(Hit::Close) || hit == Some(Hit::Quit) || hit == Some(
            Hit::Cancel,
        )) ==> click(page, hit) == ClickStep::Quit,
{
}

/// The lit part moves to the right by one with every step, and is as long as a
/// quarter of the line wherever all of it lies on the line.
pub proof fn lemma_sweep_moves_to_the_right(step: i32, a: Option<(i32, i32)>, b: Option<(i32, i32)>)
    requires
        0 <= step < 549,
        call_ensures(sweep_segment, (step,), a),
        call_ensures(sweep_segment, ((step + 1) as i32,), b),
    ensures
        110 <= step <= 440 ==> (a matches Some(s) && s.0 == step - 50 && s.1 == 110),
        a matches Some(s) ==> (b matches Some(t) ==> (step < 440 ==> t.0 + t.1 == s.0 + s.1 + 1)),
        a matches Some(s) ==> (b matches Some(t) ==> (step >= 110 ==> t.0 == s.0 + 1)),
{
}

/// Without arguments the installer opens its first page.
pub proof fn lemma_window_opens_without_arguments(args: &[String], r: SetupMode)
    requires
        args@.len() == 0,
        call_ensures(setup_mode, (args,), r),
    ensures
        r == (SetupMode::Window { page: Page::Welcome }),
{
    let a = text::texts(args@);
    assert(a.len() == 0);
    assert(!has_flag(a, "/S"@));
}

/// With one argument the installer is silent on `/S`, and asks before it removes
/// the program on `/uninstall` or `--uninstall`, in letters of any case.
pub proof fn lemma_flags_are_understood(args: &[String], shown: &str, low: String, r: SetupMode)
    requires
        args@.len() == 1,
        shown@ == args@[0]@,
        call_ensures(text::ascii_lowered, (shown,), low),
        call_ensures(setup_mode, (args,), r),
    ensures
        r is Silent <==> low@ == "/s"@,
        r == (SetupMode::Window { page: Page::RemoveConfirm }) <==> low@ == "/uninstall"@ || low@
            == "--uninstall"@,
        !(r is Preview),
{
    let a = text::texts(args@);
    assert(a.len() == 1 && a[0] == args@[0]@);
    reveal_strlit("/S");
    reveal_strlit("/s");
    reveal_strlit("/uninstall");
    reveal_strlit("--uninstall");
    assert(text::ascii_lower('S') == 's');
    assert(text::ascii_lower_all("/S"@) =~= "/s"@);
    assert(text::ascii_lower_all("/uninstall"@) =~= "/uninstall"@);
    assert(text::ascii_lower_all("--uninstall"@) =~= "--uninstall"@);
    assert("/s"@.len() == 2 && "/uninstall"@.len() == 10 && "--uninstall"@.len() == 11);
    assert(has_flag(a, "/S"@) <==> low@ == "/s"@) by {
        if low@ == "/s"@ {
            assert(is_flag(a[0], "/S"@));
        }
    }
    assert(has_flag(a, "/uninstall"@) <==> low@ == "/uninstall"@) by {
        if low@ == "/uninstall"@ {
            assert(is_flag(a[0], "/uninstall"@));
        }
    }
    assert(has_flag(a, "--uninstall"@) <==> low@ == "--uninstall"@) by {
        if low@ == "--uninstall"@ {
            assert(is_flag(a[0], "--uninstall"@));
        }
    }
    assert(a.skip(1).len() == 0);
    assert(value_of(a.skip(1), "--preview"@) is None);
    assert(value_of(a, "--preview"@) is None);
}

} // verus!
