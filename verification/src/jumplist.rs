//! The tasks in the menu of the program's button on the taskbar.

use vstd::prelude::*;

use crate::text;

verus! {

/// The id under which the system groups the program's windows.
pub const APP_USER_MODEL_ID: &'static str = "io.rot.capscr";

/// A text as the system takes it: its units, and a zero behind them.
pub fn wide(s: &str) -> (r: Vec<u16>)
    ensures
        r@ == text::utf16(s@).push(0),
{
    let mut v = text::utf16_units(s);
    v.push(0);
    v
}

/// An entry of the menu.
#[derive(Clone, Copy, Debug)]
pub struct JumpTask {
    /// What the program is started with.
    pub arg: &'static str,
    pub title: &'static str,
    pub desc: &'static str,
}

/// What an entry of the menu does.
#[derive(Clone, Copy, PartialEq, Eq, Structural, Debug)]
pub enum Jump {
    Region,
    Window,
    Fullscreen,
    Captures,
    Hub,
}

/// The entries of the menu, from the top.
pub open spec fn jumps() -> Seq<Jump> {
    seq![Jump::Region, Jump::Window, Jump::Fullscreen, Jump::Captures, Jump::Hub]
}

impl Jump {
    pub open spec fn spec_arg(&self) -> Seq<char> {
        match *self {
            Jump::Region => "--jump=region"@,
            Jump::Window => "--jump=window"@,
            Jump::Fullscreen => "--jump=fullscreen"@,
            Jump::Captures => "--jump=captures"@,
            Jump::Hub => "--jump=hub"@,
        }
    }

    pub open spec fn spec_title(&self) -> Seq<char> {
        match *self {
            Jump::Region => "Capture region"@,
            Jump::Window => "Capture window"@,
            Jump::Fullscreen => "Capture fullscreen"@,
            Jump::Captures => "Open captures folder"@,
            Jump::Hub => "Open hub"@,
        }
    }

    pub open spec fn spec_desc(&self) -> Seq<char> {
        match *self {
            Jump::Region => "Drag a rectangle to capture"@,
            Jump::Window => "Pick a window to capture"@,
            Jump::Fullscreen => "Capture the whole screen"@,
            Jump::Captures => "Open the output directory"@,
            Jump::Hub => "Open the capscr hub window"@,
        }
    }

    /// The entry of the menu.
    pub fn task(&self) -> (r: JumpTask)
        ensures
            r.arg@ == self.spec_arg(),
            r.title@ == self.spec_title(),
            r.desc@ == self.spec_desc(),
    {
        match *self {
            Jump::Region => JumpTask {
                arg: "--jump=region",
                title: "Capture region",
                desc: "Drag a rectangle to capture",
            },
            Jump::Window => JumpTask {
                arg: "--jump=window",
                title: "Capture window",
                desc: "Pick a window to capture",
            },
            Jump::Fullscreen => JumpTask {
                arg: "--jump=fullscreen",
                title: "Capture fullscreen",
                desc: "Capture the whole screen",
            },
            Jump::Captures => JumpTask {
                arg: "--jump=captures",
                title: "Open captures folder",
                desc: "Open the output directory",
            },
            Jump::Hub => JumpTask {
                arg: "--jump=hub",
                title: "Open hub",
                desc: "Open the capscr hub window",
            },
        }
    }
}

/// The entries of the menu, from the top.
pub fn tasks() -> (r: Vec<JumpTask>)
    ensures
        r@.len() == jumps().len(),
        forall|i: int|
            0 <= i < r@.len() ==> (#[trigger] r@[i]).arg@ == jumps()[i].spec_arg() && r@[i].title@
                == jumps()[i].spec_title() && r@[i].desc@ == jumps()[i].spec_desc(),
{
    let mut v: Vec<JumpTask> = Vec::new();
    v.push(Jump::Region.task());
    v.push(Jump::Window.task());
    v.push(Jump::Fullscreen.task());
    v.push(Jump::Captures.task());
    v.push(Jump::Hub.task());
    v
}

/// The menu names a region, a window, the screen, the captures and the hub, in
/// that order, and each entry starts the program with the word for what it names.
pub proof fn lemma_entries_start_what_they_name(r: Vec<JumpTask>)
    requires
        call_ensures(tasks, (), r),
    ensures
        r@.len() == 5,
        r@[0].arg@ == "--jump=region"@ && r@[0].title@ == "Capture region"@,
        r@[1].arg@ == "--jump=window"@ && r@[1].title@ == "Capture window"@,
        r@[2].arg@ == "--jump=fullscreen"@ && r@[2].title@ == "Capture fullscreen"@,
        r@[3].arg@ == "--jump=captures"@ && r@[3].title@ == "Open captures folder"@,
        r@[4].arg@ == "--jump=hub"@ && r@[4].title@ == "Open hub"@,
{
    assert(jumps()[0] == Jump::Region);
    assert(r@[0].arg@ == jumps()[0].spec_arg());
    assert(r@[1].arg@ == jumps()[1].spec_arg());
    assert(r@[2].arg@ == jumps()[2].spec_arg());
    assert(r@[3].arg@ == jumps()[3].spec_arg());
    assert(r@[4].arg@ == jumps()[4].spec_arg());
}

/// A text that the system takes ends in a zero, and before it stand the units of
/// the text.
pub proof fn lemma_wide_text_ends_in_a_zero(s: &str, r: Vec<u16>, u: Vec<u16>)
    requires
        call_ensures(wide, (s,), r),
        call_ensures(text::utf16_units, (s,), u),
    ensures
        r@.len() == u@.len() + 1,
        r@.last() == 0,
        r@.drop_last() == u@,
{
    assert(r@.drop_last() =~= u@);
}

} // verus!
