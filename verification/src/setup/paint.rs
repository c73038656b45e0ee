//! What is drawn in the installer's window.

use vstd::prelude::*;

use crate::setup::ui;
use crate::setup::ui::Hit;
use crate::setup::ui::HitRect;
use crate::setup::ui::Ink;
use crate::setup::ui::Page;
use crate::setup::ui::State;
use crate::text;

verus! {

/// Where a text stands: it begins at its place, or lies around it, or ends there.
#[derive(Clone, Copy, PartialEq, Eq, Structural, Debug)]
pub enum Align {
    Begins,
    Centered,
    Ends,
}

/// A step of the drawing.
#[derive(Debug)]
pub enum Draw {
    Fill { x: i32, y: i32, w: i32, h: i32, ink: Ink },
    /// A line of the thinnest kind.
    Rule { y: i32, ink: Ink },
    Text { x: i32, y: i32, text: String, size: i32, ink: Ink, track: i32, align: Align },
    Button { x: i32, y: i32, w: i32, h: i32, label: &'static str, primary: bool, hovered: bool },
    /// The lit part of the line that shows progress.
    Sweep,
}

/// A step of the drawing, as a value.
pub enum Step {
    Fill { x: i32, y: i32, w: i32, h: i32, ink: Ink },
    Rule { y: i32, ink: Ink },
    Text { x: i32, y: i32, text: Seq<char>, size: i32, ink: Ink, track: i32, align: Align },
    Button { x: i32, y: i32, w: i32, h: i32, label: Seq<char>, primary: bool, hovered: bool },
    Sweep,
}

/// The value of a step.
pub open spec fn step_of(d: Draw) -> Step {
    match d {
        Draw::Fill { x, y, w, h, ink } => Step::Fill { x, y, w, h, ink },
        Draw::Rule { y, ink } => Step::Rule { y, ink },
        Draw::Text { x, y, text, size, ink, track, align } => Step::Text {
            x,
            y,
            text: text@,
            size,
            ink,
            track,
            align,
        },
        Draw::Button { x, y, w, h, label, primary, hovered } => Step::Button {
            x,
            y,
            w,
            h,
            label: label@,
            primary,
            hovered,
        },
        Draw::Sweep => Step::Sweep,
    }
}

pub open spec fn steps(v: Seq<Draw>) -> Seq<Step> {
    Seq::new(v.len(), |i: int| step_of(v[i]))
}

// ---- the parts -------------------------------------------------------------------------------

/// A line of a text in the common manner.
pub open spec fn plain(x: i32, y: i32, s: Seq<char>, size: i32, ink: Ink, track: i32) -> Step {
    Step::Text { x, y, text: s, size, ink, track, align: Align::Begins }
}

/// A line of a text in the middle of the window.
pub open spec fn middle(y: i32, s: Seq<char>, size: i32, ink: Ink, track: i32) -> Step {
    Step::Text { x: 280, y, text: s, size, ink, track, align: Align::Centered }
}

/// What is on every page.
pub open spec fn frame(hover: Option<Hit>, version: Seq<char>) -> Seq<Step> {
    let on_close = hover == Some(Hit::Close);
    seq![
        Step::Fill { x: 0, y: 0, w: 560, h: 380, ink: Ink::Background },
        Step::Fill { x: 0, y: 344, w: 560, h: 36, ink: Ink::Ink0 },
        Step::Rule { y: 344, ink: Ink::Rule },
        Step::Fill { x: 24, y: 18, w: 40, h: 26, ink: Ink::Paper },
        Step::Fill { x: 31, y: 24, w: 26, h: 14, ink: Ink::Ink0 },
        Step::Fill { x: 33, y: 26, w: 22, h: 10, ink: Ink::Paper },
        plain(76, 21, "capscr"@, 17, Ink::Text2, 0),
    ] + (if on_close {
        seq![Step::Fill { x: 516, y: 12, w: 32, h: 32, ink: Ink::Surface }]
    } else {
        Seq::empty()
    }) + seq![
        Step::Text {
            x: 532,
            y: 19,
            text: "\u{d7}"@,
            size: 15,
            ink: if on_close {
                Ink::Text2
            } else {
                Ink::Mute
            },
            track: 0,
            align: Align::Centered,
        },
        Step::Rule { y: 64, ink: Ink::Rule },
        plain(24, 80, "HDR-AWARE SCREEN CAPTURE"@, 11, Ink::Mute, 3),
        Step::Text {
            x: 536,
            y: 80,
            text: text::uppercase(version),
            size: 11,
            ink: Ink::Mute,
            track: 3,
            align: Align::Ends,
        },
        plain(
            24,
            353,
            "MIT \u{b7} SIGNED INSTALLER INSIDE \u{b7} NO TELEMETRY"@,
            10,
            Ink::Mute,
            2,
        ),
        Step::Text {
            x: 536,
            y: 353,
            text: "ROT"@,
            size: 10,
            ink: Ink::Mute,
            track: 2,
            align: Align::Ends,
        },
    ]
}

/// A button, where it can be clicked on.
pub open spec fn button(hit: Hit, page: Page, hover: Option<Hit>) -> Step {
    let r = ui::button_rect(hit, page);
    Step::Button {
        x: r.left,
        y: r.top,
        w: (r.right - r.left) as i32,
        h: (r.bottom - r.top) as i32,
        label: match hit {
            Hit::Install => "INSTALL"@,
            Hit::Launch => "LAUNCH"@,
            Hit::Remove => "REMOVE"@,
            Hit::Cancel => "CANCEL"@,
            _ => "CLOSE"@,
        },
        primary: hit == Hit::Install || hit == Hit::Launch || hit == Hit::Remove,
        hovered: hover == Some(hit),
    }
}

/// The lines of an error, one below the other.
pub open spec fn error_steps(lines: Seq<Seq<char>>) -> Seq<Step> {
    Seq::new(lines.len(), |i: int| middle((166 + 18 * i) as i32, lines[i], 11, Ink::Mute, 0))
}

/// What a page says.
pub open spec fn message(s: State) -> Seq<Step> {
    match s.page {
        Page::Welcome => seq![
            plain(
                24,
                126,
                "tray-first screen capture with HDR tone mapping,"@,
                13,
                Ink::Text,
                0,
            ),
            plain(
                24,
                148,
                "per-hotkey task chains, and a plugin marketplace."@,
                13,
                Ink::Text,
                0,
            ),
            plain(24, 184, "INSTALLS FOR ALL USERS \u{b7} WINDOWS ASKS ONCE"@, 10, Ink::Mute, 2),
            plain(24, 202, "UPDATES ARRIVE SIGNED, IN THE APP"@, 10, Ink::Mute, 2),
        ],
        Page::Progress => seq![
            middle(
                140,
                if s.removing {
                    "REMOVING"@
                } else {
                    "INSTALLING"@
                },
                13,
                Ink::Text2,
                4,
            ),
            Step::Fill { x: 60, y: 184, w: 440, h: 3, ink: Ink::Rule },
            Step::Sweep,
            middle(208, "windows installer is working"@, 11, Ink::Mute, 0),
        ],
        Page::Done => seq![
            middle(134, "INSTALLED"@, 13, Ink::Text2, 4),
            middle(162, "capscr lives in the tray \u{2014} look for the frame"@, 11, Ink::Mute, 0),
        ],
        Page::Error => seq![middle(134, "INSTALL FAILED"@, 13, Ink::Text2, 4)] + error_steps(
            ui::lines(s.error@),
        ),
        Page::RemoveConfirm => seq![
            middle(134, "REMOVE CAPSCR?"@, 13, Ink::Text2, 4),
            middle(162, "captures and settings stay on disk"@, 11, Ink::Mute, 0),
        ],
        Page::Removed => seq![middle(140, "REMOVED"@, 13, Ink::Text2, 4)],
    }
}

/// The buttons of a page.
pub open spec fn button_steps(s: State) -> Seq<Step> {
    Seq::new(
        ui::buttons(s.page).len(),
        |i: int| button(ui::buttons(s.page)[i], s.page, s.hover),
    )
}

/// What is drawn in the window.
pub open spec fn drawing(s: State, version: Seq<char>) -> Seq<Step> {
    frame(s.hover, version) + message(s) + button_steps(s)
}

// ---- drawing ---------------------------------------------------------------------------------

fn add_step(out: &mut Vec<Draw>, d: Draw)
    ensures
        steps(final(out)@) == steps(old(out)@).push(step_of(d)),
{
    out.push(d);
    assert(steps(out@) =~= steps(old(out)@).push(step_of(d)));
}

fn fill(out: &mut Vec<Draw>, x: i32, y: i32, w: i32, h: i32, ink: Ink)
    ensures
        steps(final(out)@) == steps(old(out)@).push(Step::Fill { x, y, w, h, ink }),
{
    add_step(out, Draw::Fill { x, y, w, h, ink });
}

fn write_at(out: &mut Vec<Draw>, x: i32, y: i32, s: &str, size: i32, ink: Ink, track: i32, align: Align)
    ensures
        steps(final(out)@) == steps(old(out)@).push(Step::Text { x, y, text: s@, size, ink, track, align }),
{
    add_step(out, Draw::Text { x, y, text: s.to_owned(), size, ink, track, align });
}

fn write_plain(out: &mut Vec<Draw>, x: i32, y: i32, s: &str, size: i32, ink: Ink, track: i32)
    ensures
        steps(final(out)@) == steps(old(out)@).push(plain(x, y, s@, size, ink, track)),
{
    write_at(out, x, y, s, size, ink, track, Align::Begins);
}

fn write_middle(out: &mut Vec<Draw>, y: i32, s: &str, size: i32, ink: Ink, track: i32)
    ensures
        steps(final(out)@) == steps(old(out)@).push(middle(y, s@, size, ink, track)),
{
    write_at(out, ui::WIN_W / 2, y, s, size, ink, track, Align::Centered);
}

fn on(hover: Option<Hit>, hit: Hit) -> (r: bool)
    ensures
        r == (hover == Some(hit)),
{
    match hover {
        Some(h) => h == hit,
        None => false,
    }
}

fn draw_frame(out: &mut Vec<Draw>, hover: Option<Hit>, version: &str)
    requires
        old(out)@.len() == 0,
    ensures
        steps(final(out)@) == frame(hover, version@),
{
    let on_close = on(hover, Hit::Close);
    assert(steps(out@) =~= Seq::<Step>::empty());
    fill(out, 0, 0, ui::WIN_W, ui::WIN_H, Ink::Background);
    fill(out, 0, ui::WIN_H - 36, ui::WIN_W, 36, Ink::Ink0);
    add_step(out, Draw::Rule { y: ui::WIN_H - 36, ink: Ink::Rule });
    fill(out, 24, 18, 40, 26, Ink::Paper);
    fill(out, 31, 24, 26, 14, Ink::Ink0);
    fill(out, 33, 26, 22, 10, Ink::Paper);
    write_plain(out, 76, 21, "capscr", 17, Ink::Text2, 0);
    if on_close {
        fill(out, ui::WIN_W - 44, 12, 32, 32, Ink::Surface);
    }
    let close_ink = if on_close {
        Ink::Text2
    } else {
        Ink::Mute
    };
    write_at(out, ui::WIN_W - 28, 19, "\u{d7}", 15, close_ink, 0, Align::Centered);
    add_step(out, Draw::Rule { y: 64, ink: Ink::Rule });
    write_plain(out, 24, 80, "HDR-AWARE SCREEN CAPTURE", 11, Ink::Mute, 3);
    let upper = version.to_uppercase();
    write_at(out, ui::WIN_W - 24, 80, upper.as_str(), 11, Ink::Mute, 3, Align::Ends);
    write_plain(
        out,
        24,
        ui::WIN_H - 27,
        "MIT \u{b7} SIGNED INSTALLER INSIDE \u{b7} NO TELEMETRY",
        10,
        Ink::Mute,
        2,
    );
    write_at(out, ui::WIN_W - 24, ui::WIN_H - 27, "ROT", 10, Ink::Mute, 2, Align::Ends);
    assert(steps(out@) =~= frame(hover, version@));
}

fn draw_error(out: &mut Vec<Draw>, error: &str)
    requires
        ui::lines(error@).len() < 0x100_0000,
    ensures
        steps(final(out)@) == steps(old(out)@) + error_steps(ui::lines(error@)),
{
    let lines = ui::error_lines(error);
    let n: usize = lines.len();
    let ghost all = ui::lines(error@);
    let ghost before = steps(out@);
    assert(n == text::texts(lines@).len());
    assert(before + error_steps(all.take(0)) =~= before);
    for i in 0..n
        invariant
            n == lines@.len(),
            text::texts(lines@) == all,
            all.len() < 0x100_0000,
            before == steps(old(out)@),
            steps(out@) == before + error_steps(all.take(i as int)),
    {
        assert(all.len() == n);
        assert(all[i as int] == lines@[i as int]@);
        let y: i32 = 166 + 18 * i as i32;
        write_middle(out, y, lines[i].as_str(), 11, Ink::Mute, 0);
        assert(steps(out@) =~= before + error_steps(all.take(i + 1)));
    }
    assert(all.take(n as int) =~= all);
}

fn draw_message(out: &mut Vec<Draw>, s: &State)
    requires
        ui::lines(s.error@).len() < 0x100_0000,
    ensures
        steps(final(out)@) == steps(old(out)@) + message(*s),
{
    match s.page {
        Page::Welcome => {
            write_plain(
                out,
                24,
                126,
                "tray-first screen capture with HDR tone mapping,",
                13,
                Ink::Text,
                0,
            );
            write_plain(
                out,
                24,
                148,
                "per-hotkey task chains, and a plugin marketplace.",
                13,
                Ink::Text,
                0,
            );
            write_plain(
                out,
                24,
                184,
                "INSTALLS FOR ALL USERS \u{b7} WINDOWS ASKS ONCE",
                10,
                Ink::Mute,
                2,
            );
            write_plain(out, 24, 202, "UPDATES ARRIVE SIGNED, IN THE APP", 10, Ink::Mute, 2);
        },
        Page::Progress => {
            let what = if s.removing {
                "REMOVING"
            } else {
                "INSTALLING"
            };
            write_middle(out, 140, what, 13, Ink::Text2, 4);
            fill(out, 60, 184, ui::WIN_W - 120, 3, Ink::Rule);
            add_step(out, Draw::Sweep);
            write_middle(out, 208, "windows installer is working", 11, Ink::Mute, 0);
        },
        Page::Done => {
            write_middle(out, 134, "INSTALLED", 13, Ink::Text2, 4);
            write_middle(
                out,
                162,
                "capscr lives in the tray \u{2014} look for the frame",
                11,
                Ink::Mute,
                0,
            );
        },
        Page::Error => {
            write_middle(out, 134, "INSTALL FAILED", 13, Ink::Text2, 4);
            draw_error(out, s.error.as_str());
        },
        Page::RemoveConfirm => {
            write_middle(out, 134, "REMOVE CAPSCR?", 13, Ink::Text2, 4);
            write_middle(out, 162, "captures and settings stay on disk", 11, Ink::Mute, 0);
        },
        Page::Removed => {
            write_middle(out, 140, "REMOVED", 13, Ink::Text2, 4);
        },
    }
    assert(steps(out@) =~= steps(old(out)@) + message(*s));
}

fn draw_button(out: &mut Vec<Draw>, r: &HitRect, page: Page, hover: Option<Hit>)
    requires
        *r == ui::button_rect(r.hit, page),
    ensures
        steps(final(out)@) == steps(old(out)@).push(button(r.hit, page, hover)),
{
    let label = match r.hit {
        Hit::Install => "INSTALL",
        Hit::Launch => "LAUNCH",
        Hit::Remove => "REMOVE",
        Hit::Cancel => "CANCEL",
        _ => "CLOSE",
    };
    let primary = match r.hit {
        Hit::Install | Hit::Launch | Hit::Remove => true,
        _ => false,
    };
    let hovered = on(hover, r.hit);
    add_step(
        out,
        Draw::Button {
            x: r.left,
            y: r.top,
            w: r.right - r.left,
            h: r.bottom - r.top,
            label,
            primary,
            hovered,
        },
    );
}

/// What is drawn in the window: the frame, what the page says, and its buttons.
pub fn paint(s: &State, version: &str) -> (r: Vec<Draw>)
    requires
        ui::lines(s.error@).len() < 0x100_0000,
    ensures
        steps(r@) == drawing(*s, version@),
{
    let mut out: Vec<Draw> = Vec::new();
    draw_frame(&mut out, s.hover, version);
    draw_message(&mut out, s);
    let rects = ui::hit_rects(s.page);
    let n: usize = rects.len();
    let ghost before = steps(out@);
    let ghost all = button_steps(*s);
    assert(before + all.take(0) =~= before);
    for i in 1..n
        invariant
            n == rects@.len(),
            rects@ == ui::rects(s.page),
            all == button_steps(*s),
            steps(out@) == before + all.take(i - 1),
    {
        assert(rects@[i as int] == ui::button_rect(ui::buttons(s.page)[i - 1], s.page));
        draw_button(&mut out, &rects[i], s.page, s.hover);
        assert(steps(out@) =~= before + all.take(i as int));
    }
    assert(all.take(n - 1) =~= all);
    assert(steps(out@) =~= drawing(*s, version@));
    out
}

/// The shade of a button, and that of its label.
pub fn button_inks(primary: bool, hovered: bool) -> (r: (Ink, Ink))
    ensures
        r.0 == (if hovered {
            Ink::Paper
        } else if primary {
            Ink::PaperDim
        } else {
            Ink::Rule2
        }),
        r.1 == (if primary {
            Ink::Ink0
        } else if hovered {
            Ink::Text2
        } else {
            Ink::Mute
        }),
{
    if primary {
        (
            if hovered {
                Ink::Paper
            } else {
                Ink::PaperDim
            },
            Ink::Ink0,
        )
    } else if hovered {
        (Ink::Paper, Ink::Text2)
    } else {
        (Ink::Rule2, Ink::Mute)
    }
}

/// Where a button is drawn, a click hits it, and nothing else is hit there.
pub proof fn lemma_buttons_are_hit_where_they_are_drawn(page: Page, i: int, x: int, y: int)
    requires
        0 <= i < ui::buttons(page).len(),
        ui::button_rect(ui::buttons(page)[i], page).covers(x, y),
    ensures
        ui::hit_in(ui::rects(page), x, y) == Some(ui::buttons(page)[i]),
{
    let r = ui::rects(page);
    assert(r[0] == ui::close_rect());
    assert(r.skip(1).len() == ui::buttons(page).len());
    assert(r.skip(1)[0] == ui::button_rect(ui::buttons(page)[0], page));
    assert(ui::hit_in(r, x, y) == ui::hit_in(r.skip(1), x, y));
    if i == 1 {
        assert(r.skip(1).skip(1)[0] == ui::button_rect(ui::buttons(page)[1], page));
        assert(ui::hit_in(r.skip(1), x, y) == ui::hit_in(r.skip(1).skip(1), x, y));
    }
}

/// Every button is drawn where it can be clicked on, under the word for what it
/// does, and lit where the pointer is over it.
pub proof fn lemma_buttons_are_drawn_under_their_words(
    s: State,
    version: &str,
    r: Vec<Draw>,
    rects: Vec<HitRect>,
    i: int,
)
    requires
        call_ensures(paint, (&s, version), r),
        call_ensures(ui::hit_rects, (s.page,), rects),
        1 <= i < rects@.len(),
    ensures
        ({
            let d = r@[r@.len() - rects@.len() + i];
            let q = rects@[i];
            d matches Draw::Button { x, y, w, h, label, primary, hovered } && x == q.left && y
                == q.top && w == q.right - q.left && h == q.bottom - q.top && (hovered <==> s.hover
                == Some(q.hit)) && (q.hit == Hit::Install ==> label@ == "INSTALL"@) && (q.hit
                == Hit::Launch ==> label@ == "LAUNCH"@) && (q.hit == Hit::Remove ==> label@
                == "REMOVE"@) && (q.hit == Hit::Cancel ==> label@ == "CANCEL"@) && (q.hit
                == Hit::Quit ==> label@ == "CLOSE"@) && (primary <==> q.hit == Hit::Install || q.hit
                == Hit::Launch || q.hit == Hit::Remove)
        }),
{
    let b = ui::buttons(s.page);
    let all = button_steps(s);
    let k = r@.len() - rects@.len() + i;
    assert(rects@.len() == b.len() + 1);
    assert(rects@[i] == ui::button_rect(b[i - 1], s.page));
    assert(steps(r@).len() == r@.len());
    assert(steps(r@)[k] == all[i - 1]);
    assert(steps(r@)[k] == step_of(r@[k]));
}

/// A button under the pointer is as bright as paper. The main one has dark letters,
/// and any other bright ones that grow brighter under the pointer.
pub proof fn lemma_buttons_light_up(primary: bool, hovered: bool, r: (Ink, Ink))
    requires
        call_ensures(button_inks, (primary, hovered), r),
    ensures
        hovered <==> r.0 == Ink::Paper,
        primary <==> r.1 == Ink::Ink0,
        primary && !hovered ==> r.0 == Ink::PaperDim,
        !primary && !hovered ==> r == (Ink::Rule2, Ink::Mute),
        !primary && hovered ==> r.1 == Ink::Text2,
{
}

} // verus!
