//! Hotkeys: reading and writing them, and which task each one starts.

use vstd::prelude::*;

use crate::hotkeys::keys::Code;
use crate::hotkeys::ll_hook::HookBinding;
use crate::hotkeys::ll_hook::HookEvent;
use crate::hotkeys::ll_hook::HookState;
use crate::hotkeys::ll_hook::HookVerdict;
use crate::hotkeys::table::TaskTable;
use crate::text;

pub mod evdev_linux;
pub mod key_tables;
pub mod keys;
pub mod ll_hook;
pub mod portal_linux;
pub mod table;

verus! {

pub const MOD_CTRL: u8 = 1;

pub const MOD_ALT: u8 = 2;

pub const MOD_SHIFT: u8 = 4;

pub const MOD_WIN: u8 = 8;

// ---- modifiers -----------------------------------------------------------------------------

/// A key that is held while another is pressed.
#[derive(Clone, Copy, PartialEq, Eq, Structural, Debug)]
pub enum Modifier {
    Ctrl,
    Alt,
    Shift,
    Win,
}

/// The keys that are held.
#[derive(Clone, Copy, PartialEq, Eq, Structural, Debug)]
pub struct Modifiers {
    pub ctrl: bool,
    pub alt: bool,
    pub shift: bool,
    pub win: bool,
}

impl Modifiers {
    pub open spec fn none() -> Modifiers {
        Modifiers { ctrl: false, alt: false, shift: false, win: false }
    }

    /// No key is held.
    pub fn empty() -> (r: Modifiers)
        ensures
            r == Modifiers::none(),
    {
        Modifiers { ctrl: false, alt: false, shift: false, win: false }
    }

    pub open spec fn set(self, m: Modifier, held: bool) -> Modifiers {
        match m {
            Modifier::Ctrl => Modifiers { ctrl: held, ..self },
            Modifier::Alt => Modifiers { alt: held, ..self },
            Modifier::Shift => Modifiers { shift: held, ..self },
            Modifier::Win => Modifiers { win: held, ..self },
        }
    }

    /// The keys that are held once the key is held or let go.
    pub fn with(self, m: Modifier, held: bool) -> (r: Modifiers)
        ensures
            r == self.set(m, held),
    {
        match m {
            Modifier::Ctrl => Modifiers { ctrl: held, ..self },
            Modifier::Alt => Modifiers { alt: held, ..self },
            Modifier::Shift => Modifiers { shift: held, ..self },
            Modifier::Win => Modifiers { win: held, ..self },
        }
    }

    /// The keys as the sum of their numbers.
    pub open spec fn spec_mask(self) -> int {
        (if self.ctrl {
            1int
        } else {
            0
        }) + (if self.alt {
            2int
        } else {
            0
        }) + (if self.shift {
            4int
        } else {
            0
        }) + (if self.win {
            8int
        } else {
            0
        })
    }

    /// The keys as a number, in which each has a bit of its own.
    pub fn mask(self) -> (r: u8)
        ensures
            r == self.spec_mask(),
            r <= 15,
    {
        let mut r: u8 = 0;
        if self.ctrl {
            r = r + MOD_CTRL;
        }
        if self.alt {
            r = r + MOD_ALT;
        }
        if self.shift {
            r = r + MOD_SHIFT;
        }
        if self.win {
            r = r + MOD_WIN;
        }
        r
    }
}

/// The number tells which keys are held.
pub proof fn lemma_mask_tells_modifiers_apart(a: Modifiers, b: Modifiers)
    requires
        a.spec_mask() == b.spec_mask(),
    ensures
        a == b,
{
}

/// The modifier of a name in lower case.
pub open spec fn modifier_named(name: Seq<char>) -> Option<Modifier> {
    if name == "ctrl"@ || name == "control"@ {
        Some(Modifier::Ctrl)
    } else if name == "alt"@ {
        Some(Modifier::Alt)
    } else if name == "shift"@ {
        Some(Modifier::Shift)
    } else if name == "super"@ || name == "win"@ || name == "meta"@ || name == "cmd"@ {
        Some(Modifier::Win)
    } else {
        None
    }
}

fn find_modifier(name: &str) -> (r: Option<Modifier>)
    ensures
        r == modifier_named(name@),
{
    if text::same(name, "ctrl") || text::same(name, "control") {
        Some(Modifier::Ctrl)
    } else if text::same(name, "alt") {
        Some(Modifier::Alt)
    } else if text::same(name, "shift") {
        Some(Modifier::Shift)
    } else if text::same(name, "super") || text::same(name, "win") || text::same(name, "meta")
        || text::same(name, "cmd") {
        Some(Modifier::Win)
    } else {
        None
    }
}

// ---- reading and writing hotkeys -------------------------------------------------------------

/// A key, and the keys that are held with it.
#[derive(Clone, Copy, PartialEq, Eq, Structural, Debug)]
pub struct HotKey {
    pub mods: Modifiers,
    pub key: Code,
}

/// Why a text is no hotkey.
#[derive(Clone, Copy, PartialEq, Eq, Structural, Debug)]
pub enum HotkeyError {
    /// The part is neither a modifier nor a key.
    UnknownKey { part: usize },
    /// There are only modifiers.
    NoKey,
}

/// What the parts from `i` on make of what was read before them. Of several
/// keys the last counts.
pub open spec fn read_parts(
    parts: Seq<Seq<char>>,
    i: int,
    mods: Modifiers,
    key: Option<Code>,
) -> Result<HotKey, HotkeyError>
    decreases parts.len() - i,
{
    if i >= parts.len() {
        match key {
            Some(k) => Ok(HotKey { mods, key: k }),
            None => Err(HotkeyError::NoKey),
        }
    } else {
        let p = text::trim(parts[i]);
        match modifier_named(text::lowercase(p)) {
            Some(m) => read_parts(parts, i + 1, mods.set(m, true), key),
            None => match keys::key_named(text::uppercase(p)) {
                Some(k) => read_parts(parts, i + 1, mods, Some(k)),
                None => Err(HotkeyError::UnknownKey { part: i as usize }),
            },
        }
    }
}

/// What a text reads as: its parts stand between plus signs.
pub open spec fn hotkey_of(s: Seq<char>) -> Result<HotKey, HotkeyError> {
    read_parts(text::split(s, '+'), 0, Modifiers::none(), None)
}

/// Reads a hotkey.
pub fn parse_hotkey(s: &str) -> (r: Result<HotKey, HotkeyError>)
    ensures
        r == hotkey_of(s@),
{
    let parts = text::pieces(s, '+');
    let ghost all = text::split(s@, '+');
    let mut mods = Modifiers::empty();
    let mut key: Option<Code> = None;
    let n: usize = parts.len();
    for i in 0..n
        invariant
            n == parts@.len(),
            all == text::texts(parts@),
            hotkey_of(s@) == read_parts(all, i as int, mods, key),
    {
        assert(all[i as int] == parts@[i as int]@);
        let part = text::trimmed(parts[i].as_str());
        match find_modifier(part.as_str().to_lowercase().as_str()) {
            Some(m) => {
                mods = mods.with(m, true);
            },
            None => match keys::parse_key_code(part.as_str()) {
                Some(k) => {
                    key = Some(k);
                },
                None => {
                    return Err(HotkeyError::UnknownKey { part: i });
                },
            },
        }
    }
    match key {
        Some(k) => Ok(HotKey { mods, key: k }),
        None => Err(HotkeyError::NoKey),
    }
}

/// A hotkey as it is written.
pub open spec fn hotkey_name(mods: Modifiers, code: Code) -> Seq<char> {
    let with_win = if mods.win {
        "Win"@.push('+') + keys::code_name(code)
    } else {
        keys::code_name(code)
    };
    let with_shift = if mods.shift {
        "Shift"@.push('+') + with_win
    } else {
        with_win
    };
    let with_alt = if mods.alt {
        "Alt"@.push('+') + with_shift
    } else {
        with_shift
    };
    if mods.ctrl {
        "Ctrl"@.push('+') + with_alt
    } else {
        with_alt
    }
}

fn held_before(name: &str, rest: String, held: bool) -> (r: String)
    ensures
        r@ == (if held {
            name@.push('+') + rest@
        } else {
            rest@
        }),
{
    if held {
        let mut s = name.to_owned();
        s.push('+');
        s.append(rest.as_str());
        s
    } else {
        rest
    }
}

/// Writes a hotkey: the modifiers in a fixed order, then the key.
pub fn format_hotkey(mods: Modifiers, code: Code) -> (r: String)
    ensures
        r@ == hotkey_name(mods, code),
{
    let s = keys::format_code(code).to_owned();
    let s = held_before("Win", s, mods.win);
    let s = held_before("Shift", s, mods.shift);
    let s = held_before("Alt", s, mods.alt);
    held_before("Ctrl", s, mods.ctrl)
}

/// A hotkey written anew, or the text as it is where it cannot be read.
pub fn format_hotkey_string(s: &str) -> (r: String)
    ensures
        r@ == (match hotkey_of(s@) {
            Ok(h) => hotkey_name(h.mods, h.key),
            Err(_) => s@,
        }),
{
    match parse_hotkey(s) {
        Ok(h) => format_hotkey(h.mods, h.key),
        Err(_) => s.to_owned(),
    }
}

// ---- laws ------------------------------------------------------------------------------------

proof fn lemma_words_stay_whole(s: Seq<char>)
    requires
        keys::is_word(s),
    ensures
        text::trim(s) == s,
        text::split(s, '+') == seq![s],
        text::is_ascii(s),
{
    assert(text::ascii_alphanumeric(s[0]));
    assert(text::ascii_alphanumeric(s[s.len() - 1]));
    text::lemma_find(s, '+');
}

proof fn lemma_split_front(word: Seq<char>, rest: Seq<char>)
    requires
        keys::is_word(word),
    ensures
        text::split(word.push('+') + rest, '+') == seq![word] + text::split(rest, '+'),
{
    let s = word.push('+') + rest;
    assert forall|i: int| 0 <= i < word.len() implies s[i] != '+' by {
        assert(s[i] == word[i]);
    }
    text::lemma_find_is(s, '+', word.len() as int);
    assert(s.take(word.len() as int) =~= word);
    assert(s.skip(word.len() as int + 1) =~= rest);
}

proof fn lemma_read_behind(first: Seq<char>, rest: Seq<Seq<char>>, i: int, mods: Modifiers, key: Option<
    Code,
>)
    requires
        0 <= i,
    ensures
        ({
            let a = read_parts(seq![first] + rest, i + 1, mods, key);
            let b = read_parts(rest, i, mods, key);
            (a is Ok <==> b is Ok) && (b is Ok ==> a == b)
        }),
    decreases rest.len() - i,
{
    if i < rest.len() {
        let all = seq![first] + rest;
        assert(all[i + 1] == rest[i]);
        let p = text::trim(rest[i]);
        match modifier_named(text::lowercase(p)) {
            Some(m) => {
                lemma_read_behind(first, rest, i + 1, mods.set(m, true), key);
            },
            None => match keys::key_named(text::uppercase(p)) {
                Some(k) => {
                    lemma_read_behind(first, rest, i + 1, mods, Some(k));
                },
                None => {},
            },
        }
    }
}

/// Reading a modifier, a plus sign and a rest is reading the rest with the
/// modifier held.
proof fn lemma_read_modifier(word: Seq<char>, m: Modifier, rest: Seq<char>, mods: Modifiers)
    requires
        keys::is_word(word),
        modifier_named(text::lowercase(word)) == Some(m),
        read_parts(text::split(rest, '+'), 0, mods.set(m, true), None) is Ok,
    ensures
        read_parts(text::split(word.push('+') + rest, '+'), 0, mods, None) == read_parts(
            text::split(rest, '+'),
            0,
            mods.set(m, true),
            None,
        ),
{
    lemma_words_stay_whole(word);
    lemma_split_front(word, rest);
    let parts = text::split(rest, '+');
    assert((seq![word] + parts)[0] == word);
    lemma_read_behind(word, parts, 0, mods.set(m, true), None);
}

/// The names of the modifiers as they are written.
proof fn lemma_modifier_names()
    ensures
        keys::is_word("Ctrl"@) && modifier_named(text::lowercase("Ctrl"@)) == Some(Modifier::Ctrl),
        keys::is_word("Alt"@) && modifier_named(text::lowercase("Alt"@)) == Some(Modifier::Alt),
        keys::is_word("Shift"@) && modifier_named(text::lowercase("Shift"@)) == Some(
            Modifier::Shift,
        ),
        keys::is_word("Win"@) && modifier_named(text::lowercase("Win"@)) == Some(Modifier::Win),
{
    reveal_strlit("Ctrl");
    reveal_strlit("Alt");
    reveal_strlit("Shift");
    reveal_strlit("Win");
    reveal_strlit("ctrl");
    reveal_strlit("control");
    reveal_strlit("alt");
    reveal_strlit("shift");
    reveal_strlit("super");
    reveal_strlit("win");
    let ctrl = text::ascii_lower_all("Ctrl"@);
    let alt = text::ascii_lower_all("Alt"@);
    let shift = text::ascii_lower_all("Shift"@);
    let win = text::ascii_lower_all("Win"@);
    assert(text::is_ascii("Ctrl"@) && text::is_ascii("Alt"@) && text::is_ascii("Shift"@)
        && text::is_ascii("Win"@));
    assert(ctrl =~= "ctrl"@);
    assert(alt =~= "alt"@);
    assert(shift =~= "shift"@);
    assert(win =~= "win"@);
    assert(shift[1] == 'h');
    assert(win[0] == 'w');
}

/// The name of a key is not that of a modifier.
proof fn lemma_key_names_are_no_modifiers(name: Seq<char>)
    requires
        text::is_ascii(name),
        keys::key_named(text::uppercase(name)) is Some,
    ensures
        modifier_named(text::lowercase(name)) is None,
{
    let low = text::ascii_lower_all(name);
    let up = text::ascii_upper_all(name);
    if modifier_named(low) is Some {
        reveal_strlit("ctrl");
        reveal_strlit("control");
        reveal_strlit("alt");
        reveal_strlit("shift");
        reveal_strlit("super");
        reveal_strlit("win");
        reveal_strlit("meta");
        reveal_strlit("cmd");
        reveal_strlit("CTRL");
        reveal_strlit("CONTROL");
        reveal_strlit("ALT");
        reveal_strlit("SHIFT");
        reveal_strlit("SUPER");
        reveal_strlit("WIN");
        reveal_strlit("META");
        reveal_strlit("CMD");
        assert forall|i: int| 0 <= i < name.len() implies #[trigger] up[i] == text::ascii_upper(
            low[i],
        ) by {
            lemma_upper_of_lower(name[i]);
        }
        assert(up =~= text::ascii_upper_all(low));
        if low == "ctrl"@ {
            assert(up =~= "CTRL"@);
        } else if low == "control"@ {
            assert(up =~= "CONTROL"@);
        } else if low == "alt"@ {
            assert(up =~= "ALT"@);
        } else if low == "shift"@ {
            assert(up =~= "SHIFT"@);
        } else if low == "super"@ {
            assert(up =~= "SUPER"@);
        } else if low == "win"@ {
            assert(up =~= "WIN"@);
        } else if low == "meta"@ {
            assert(up =~= "META"@);
        } else {
            assert(up =~= "CMD"@);
        }
        keys::lemma_no_key_is_a_modifier(up);
    }
}

proof fn lemma_upper_of_lower(c: char)
    ensures
        text::ascii_upper(text::ascii_lower(c)) == text::ascii_upper(c),
{
}

/// A hotkey that was written reads as the hotkey that it was written for. The
/// function keys above the twelfth are left out, as they are written without a
/// name.
pub proof fn lemma_written_hotkey_reads_back(mods: Modifiers, code: Code)
    requires
        keys::has_name(code),
    ensures
        hotkey_of(hotkey_name(mods, code)) == Ok::<HotKey, HotkeyError>(
            HotKey { mods, key: code },
        ),
{
    let name = keys::code_name(code);
    keys::lemma_name_reads_back(code);
    lemma_words_stay_whole(name);
    lemma_key_names_are_no_modifiers(name);
    lemma_modifier_names();
    let none = Modifiers::none();
    let c = Modifiers { ctrl: mods.ctrl, ..none };
    let ca = Modifiers { alt: mods.alt, ..c };
    let cas = Modifiers { shift: mods.shift, ..ca };
    assert(text::split(name, '+')[0] == name);
    let done = Ok::<HotKey, HotkeyError>(HotKey { mods, key: code });
    assert(read_parts(text::split(name, '+'), 1, mods, Some(code)) == done);
    assert(read_parts(text::split(name, '+'), 0, mods, None) == done);
    let w = if mods.win {
        "Win"@.push('+') + name
    } else {
        name
    };
    if mods.win {
        assert(cas.set(Modifier::Win, true) == mods);
        lemma_read_modifier("Win"@, Modifier::Win, name, cas);
    } else {
        assert(cas == mods);
    }
    assert(read_parts(text::split(w, '+'), 0, cas, None) == done);
    let s = if mods.shift {
        "Shift"@.push('+') + w
    } else {
        w
    };
    if mods.shift {
        assert(ca.set(Modifier::Shift, true) == cas);
        lemma_read_modifier("Shift"@, Modifier::Shift, w, ca);
    } else {
        assert(ca == cas);
    }
    assert(read_parts(text::split(s, '+'), 0, ca, None) == done);
    let a = if mods.alt {
        "Alt"@.push('+') + s
    } else {
        s
    };
    if mods.alt {
        assert(c.set(Modifier::Alt, true) == ca);
        lemma_read_modifier("Alt"@, Modifier::Alt, s, c);
    } else {
        assert(c == ca);
    }
    assert(read_parts(text::split(a, '+'), 0, c, None) == done);
    if mods.ctrl {
        assert(none.set(Modifier::Ctrl, true) == c);
        lemma_read_modifier("Ctrl"@, Modifier::Ctrl, a, none);
    } else {
        assert(none == c);
    }
}

/// Writing a hotkey anew changes nothing the second time, but for the function
/// keys that are written without a name.
pub proof fn lemma_written_anew_once(s: Seq<char>, h: HotKey)
    requires
        hotkey_of(s) == Ok::<HotKey, HotkeyError>(h),
        keys::has_name(h.key),
    ensures
        hotkey_of(hotkey_name(h.mods, h.key)) == Ok::<HotKey, HotkeyError>(h),
{
    lemma_written_hotkey_reads_back(h.mods, h.key);
}

// ---- keys that everyone types ----------------------------------------------------------------

/// A key that may be a hotkey without a modifier.
pub open spec fn safe_alone(s: Seq<char>) -> bool {
    ||| s == "F1"@ || s == "F2"@ || s == "F3"@ || s == "F4"@ || s == "F5"@ || s == "F6"@
    ||| s == "F7"@ || s == "F8"@ || s == "F9"@ || s == "F10"@ || s == "F11"@ || s == "F12"@
    ||| s == "F13"@ || s == "F14"@ || s == "F15"@ || s == "F16"@ || s == "F17"@ || s == "F18"@
    ||| s == "F19"@ || s == "F20"@ || s == "F21"@ || s == "F22"@ || s == "F23"@ || s == "F24"@
    ||| s == "Pause"@ || s == "PrintScreen"@ || s == "ScrollLock"@
    ||| s == "Numpad0"@ || s == "Numpad1"@ || s == "Numpad2"@ || s == "Numpad3"@ || s == "Numpad4"@
    ||| s == "Numpad5"@ || s == "Numpad6"@ || s == "Numpad7"@ || s == "Numpad8"@ || s == "Numpad9"@
    ||| s == "NumpadAdd"@ || s == "NumpadSubtract"@ || s == "NumpadMultiply"@
    ||| s == "NumpadDivide"@ || s == "NumpadDecimal"@ || s == "NumpadEnter"@
}

fn is_safe_alone(s: &str) -> (r: bool)
    ensures
        r == safe_alone(s@),
{
    text::same(s, "F1") || text::same(s, "F2") || text::same(s, "F3") || text::same(s, "F4")
        || text::same(s, "F5") || text::same(s, "F6") || text::same(s, "F7") || text::same(s, "F8")
        || text::same(s, "F9") || text::same(s, "F10") || text::same(s, "F11") || text::same(
        s,
        "F12",
    ) || text::same(s, "F13") || text::same(s, "F14") || text::same(s, "F15") || text::same(
        s,
        "F16",
    ) || text::same(s, "F17") || text::same(s, "F18") || text::same(s, "F19") || text::same(
        s,
        "F20",
    ) || text::same(s, "F21") || text::same(s, "F22") || text::same(s, "F23") || text::same(
        s,
        "F24",
    ) || text::same(s, "Pause") || text::same(s, "PrintScreen") || text::same(s, "ScrollLock")
        || text::same(s, "Numpad0") || text::same(s, "Numpad1") || text::same(s, "Numpad2")
        || text::same(s, "Numpad3") || text::same(s, "Numpad4") || text::same(s, "Numpad5")
        || text::same(s, "Numpad6") || text::same(s, "Numpad7") || text::same(s, "Numpad8")
        || text::same(s, "Numpad9") || text::same(s, "NumpadAdd") || text::same(
        s,
        "NumpadSubtract",
    ) || text::same(s, "NumpadMultiply") || text::same(s, "NumpadDivide") || text::same(
        s,
        "NumpadDecimal",
    ) || text::same(s, "NumpadEnter")
}

/// The text is a key that everyone types, without a modifier.
pub open spec fn risky_bare(s: Seq<char>) -> bool {
    s.len() > 0 && !s.contains('+') && !safe_alone(s)
}

/// Whether the text is a key that everyone types, without a modifier: as a
/// hotkey it would be taken from every program.
pub fn is_risky_bare(s: &str) -> (r: bool)
    ensures
        r == risky_bare(s@),
{
    !s.is_empty() && !text::has_char(s, '+') && !is_safe_alone(s)
}

// ---- the tasks' hotkeys ------------------------------------------------------------------------

/// The key and modifiers by which the keyboard hook knows a hotkey.
pub open spec fn hook_binding(h: HotKey) -> HookBinding {
    HookBinding { vk: keys::vk_of(h.key), mods: h.mods.spec_mask() as u8 }
}

/// The table holds the keys of the hotkeys, and no others. Where two tasks share
/// a hotkey, its key stands for one of them.
pub open spec fn is_hook_table(
    hotkeys: Map<Seq<char>, (HotKey, Seq<char>)>,
    bound: Map<u64, Seq<char>>,
) -> bool {
    &&& forall|key: u64| #[trigger]
        bound.contains_key(key) ==> hotkeys.contains_key(bound[key]) && key == hook_binding(
            hotkeys[bound[key]].0,
        ).spec_key()
    &&& forall|id: Seq<char>| #[trigger]
        hotkeys.contains_key(id) ==> bound.contains_key(hook_binding(hotkeys[id].0).spec_key())
}

/// The key and modifiers by which the keyboard hook knows a hotkey.
pub fn hotkey_to_hook_binding(h: &HotKey) -> (r: HookBinding)
    ensures
        r == hook_binding(*h),
{
    HookBinding { vk: keys::code_to_vk(h.key), mods: h.mods.mask() }
}

/// A hotkey that could not be taken.
#[derive(Debug)]
pub struct HotkeyRegistrationError {
    pub task_id: String,
    pub hotkey: String,
    pub reason: String,
}

/// A task and its hotkey.
#[derive(Debug)]
struct Registration {
    task_id: String,
    hotkey: HotKey,
    text: String,
}

spec fn registrations(v: Seq<Registration>) -> Map<Seq<char>, (HotKey, Seq<char>)>
    decreases v.len(),
{
    if v.len() == 0 {
        Map::empty()
    } else {
        registrations(v.drop_last()).insert(
            v.last().task_id@,
            (v.last().hotkey, v.last().text@),
        )
    }
}

spec fn ids_apart(v: Seq<Registration>) -> bool {
    forall|i: int, j: int|
        0 <= i < j < v.len() ==> #[trigger] v[i].task_id@ != #[trigger] v[j].task_id@
}

proof fn lemma_registered(v: Seq<Registration>, i: int)
    requires
        ids_apart(v),
        0 <= i < v.len(),
    ensures
        registrations(v).contains_key(v[i].task_id@),
        registrations(v)[v[i].task_id@] == (v[i].hotkey, v[i].text@),
    decreases v.len(),
{
    if i < v.len() - 1 {
        lemma_registered(v.drop_last(), i);
        assert(v.drop_last()[i] == v[i]);
        assert(v[i].task_id@ != v[v.len() - 1].task_id@);
    }
}

proof fn lemma_has_place(v: Seq<Registration>, id: Seq<char>)
    requires
        registrations(v).contains_key(id),
    ensures
        exists|i: int| 0 <= i < v.len() && (#[trigger] v[i]).task_id@ == id,
    decreases v.len(),
{
    if v.len() > 0 {
        if v.last().task_id@ == id {
            assert(v[v.len() - 1].task_id@ == id);
        } else {
            lemma_has_place(v.drop_last(), id);
            let i = choose|i: int|
                0 <= i < v.len() - 1 && (#[trigger] v.drop_last()[i]).task_id@ == id;
            assert(v[i].task_id@ == id);
        }
    }
}

proof fn lemma_registered_anew(v: Seq<Registration>, k: int, value: (HotKey, Seq<char>))
    requires
        0 <= k < v.len(),
    ensures
        registrations(v.remove(k)).insert(v[k].task_id@, value) == registrations(v).insert(
            v[k].task_id@,
            value,
        ),
    decreases v.len(),
{
    let id = v[k].task_id@;
    let r = v.remove(k);
    if k == v.len() - 1 {
        assert(r =~= v.drop_last());
    } else {
        lemma_registered_anew(v.drop_last(), k, value);
        assert(r.drop_last() =~= v.drop_last().remove(k));
        assert(r.last() == v.last());
        let a = registrations(r.drop_last());
        let b = registrations(v.drop_last());
        assert(v.drop_last()[k] == v[k]);
        assert(a.insert(id, value) == b.insert(id, value));
        assert forall|t: Seq<char>| t != id implies #[trigger] a.contains_key(t)
            == b.contains_key(t) && (a.contains_key(t) ==> a[t] == b[t]) by {
            assert(a.insert(id, value).contains_key(t) == a.contains_key(t));
            assert(b.insert(id, value).contains_key(t) == b.contains_key(t));
            assert(a.insert(id, value)[t] == b.insert(id, value)[t]);
        }
    }
    assert(registrations(r).insert(id, value) =~= registrations(v).insert(id, value));
}

/// Why a hotkey is not taken.
pub open spec fn refusal(s: Seq<char>) -> Option<Seq<char>> {
    if risky_bare(s) {
        Some(
            "'"@ + s
                + "' has no modifier — it would steal that key from every app. Add Ctrl / Alt / Shift / Win or use an F-key / Numpad / PrintScreen."@,
        )
    } else {
        match hotkey_of(s) {
            Ok(_) => None,
            Err(HotkeyError::NoKey) => Some("No key specified in hotkey"@),
            Err(HotkeyError::UnknownKey { part }) => Some(
                "Unknown key: "@ + text::trim(text::split(s, '+')[part as int]),
            ),
        }
    }
}

proof fn lemma_unknown_part(parts: Seq<Seq<char>>, i: int, mods: Modifiers, key: Option<Code>)
    requires
        0 <= i,
        parts.len() <= usize::MAX,
    ensures
        read_parts(parts, i, mods, key) matches Err(HotkeyError::UnknownKey { part }) ==> part
            < parts.len(),
    decreases parts.len() - i,
{
    if i < parts.len() {
        let p = text::trim(parts[i]);
        match modifier_named(text::lowercase(p)) {
            Some(m) => {
                lemma_unknown_part(parts, i + 1, mods.set(m, true), key);
            },
            None => match keys::key_named(text::uppercase(p)) {
                Some(k) => {
                    lemma_unknown_part(parts, i + 1, mods, Some(k));
                },
                None => {},
            },
        }
    }
}

/// The hotkeys of the tasks.
#[derive(Debug)]
pub struct HotkeyManager {
    registered: Vec<Registration>,
    registration_errors: Vec<HotkeyRegistrationError>,
}

impl HotkeyManager {
    /// The hotkey of each task that has one, and the text that it was read
    /// from.
    pub closed spec fn table(&self) -> Map<Seq<char>, (HotKey, Seq<char>)> {
        registrations(self.registered@)
    }

    /// The hotkeys that could not be taken.
    pub closed spec fn errors(&self) -> Seq<HotkeyRegistrationError> {
        self.registration_errors@
    }

    #[verifier::type_invariant]
    spec fn wf(&self) -> bool {
        ids_apart(self.registered@)
    }

    pub fn new() -> (r: Self)
        ensures
            r.table() == Map::<Seq<char>, (HotKey, Seq<char>)>::empty(),
            r.errors() == Seq::<HotkeyRegistrationError>::empty(),
    {
        HotkeyManager { registered: Vec::new(), registration_errors: Vec::new() }
    }

    fn note(&mut self, task_id: &str, hotkey: HotKey, text: &str)
        ensures
            final(self).table() == old(self).table().insert(task_id@, (hotkey, text@)),
            final(self).errors() == old(self).errors(),
    {
        proof {
            use_type_invariant(&*self);
        }
        let mut v: Vec<Registration> = Vec::new();
        std::mem::swap(&mut v, &mut self.registered);
        let ghost was = v@;
        let n: usize = v.len();
        let mut at: usize = n;
        for i in 0..n
            invariant
                v@ == was,
                n == was.len(),
                at == n || at < i && was[at as int].task_id@ == task_id@,
                at == n ==> forall|k: int| 0 <= k < i ==> (#[trigger] was[k]).task_id@ != task_id@,
        {
            if at == n && text::same(v[i].task_id.as_str(), task_id) {
                at = i;
            }
        }
        if at < n {
            proof {
                lemma_registered_anew(was, at as int, (hotkey, text@));
            }
            v.remove(at);
        }
        let ghost kept = v@;
        proof {
            assert forall|k: int| 0 <= k < kept.len() implies (#[trigger] kept[k]).task_id@
                != task_id@ by {
                if at < n {
                    if k < at {
                        assert(kept[k] == was[k]);
                    } else {
                        assert(kept[k] == was[k + 1]);
                    }
                }
            }
            assert(ids_apart(kept)) by {
                if at < n {
                    assert forall|i: int, j: int| 0 <= i < j < kept.len() implies #[trigger]
                    kept[i].task_id@ != #[trigger] kept[j].task_id@ by {
                        let a = if i < at { i } else { i + 1 };
                        let b = if j < at { j } else { j + 1 };
                        assert(kept[i] == was[a] && kept[j] == was[b]);
                    }
                }
            }
        }
        v.push(Registration { task_id: task_id.to_owned(), hotkey, text: text.to_owned() });
        proof {
            assert(v@.drop_last() =~= kept);
            assert forall|i: int, j: int| 0 <= i < j < v@.len() implies #[trigger] v@[i].task_id@
                != #[trigger] v@[j].task_id@ by {
                assert(v@[i] == kept[i]);
                if j < kept.len() {
                    assert(v@[j] == kept[j]);
                }
            }
        }
        self.registered = v;
    }

    /// Takes a hotkey for a task, in place of the one that the task had. Says
    /// why where it is not taken.
    pub fn register(&mut self, task_id: &str, hotkey_str: &str) -> (r: Result<(), String>)
        ensures
            final(self).errors() == old(self).errors(),
            match refusal(hotkey_str@) {
                Some(reason) => r matches Err(e) && e@ == reason && final(self).table() == old(self).table(),
                None => r is Ok && (hotkey_of(hotkey_str@) matches Ok(h) && final(self).table()
                    == old(self).table().insert(task_id@, (h, hotkey_str@))),
            },
    {
        if is_risky_bare(hotkey_str) {
            let mut s = String::from_str("'");
            s.append(hotkey_str);
            s.append(
                "' has no modifier — it would steal that key from every app. Add Ctrl / Alt / Shift / Win or use an F-key / Numpad / PrintScreen.",
            );
            return Err(s);
        }
        match parse_hotkey(hotkey_str) {
            Ok(h) => {
                self.note(task_id, h, hotkey_str);
                Ok(())
            },
            Err(HotkeyError::NoKey) => Err(String::from_str("No key specified in hotkey")),
            Err(HotkeyError::UnknownKey { part }) => {
                let parts = text::pieces(hotkey_str, '+');
                let n: usize = parts.len();
                proof {
                    lemma_unknown_part(
                        text::split(hotkey_str@, '+'),
                        0,
                        Modifiers::none(),
                        None,
                    );
                    assert(text::texts(parts@)[part as int] == parts@[part as int]@);
                }
                let mut s = String::from_str("Unknown key: ");
                s.append(text::trimmed(parts[part].as_str()).as_str());
                Err(s)
            },
        }
    }

    /// Takes a hotkey for a task, and notes it where it is not taken. A task
    /// without a hotkey is passed over.
    pub fn try_register(&mut self, task_id: &str, hotkey_str: &str)
        ensures
            hotkey_str@.len() == 0 ==> final(self).table() == old(self).table() && final(self).errors() == old(self).errors(),
            hotkey_str@.len() > 0 ==> (match refusal(hotkey_str@) {
                None => final(self).errors() == old(self).errors() && (hotkey_of(
                    hotkey_str@,
                ) matches Ok(h) && final(self).table() == old(self).table().insert(
                    task_id@,
                    (h, hotkey_str@),
                )),
                Some(reason) => {
                    &&& final(self).table() == old(self).table()
                    &&& final(self).errors().len() == old(self).errors().len() + 1
                    &&& final(self).errors().drop_last() == old(self).errors()
                    &&& final(self).errors().last().task_id@ == task_id@
                    &&& final(self).errors().last().hotkey@ == hotkey_str@
                    &&& final(self).errors().last().reason@ == reason
                },
            }),
    {
        if hotkey_str.is_empty() {
            return ;
        }
        match self.register(task_id, hotkey_str) {
            Ok(()) => {},
            Err(reason) => {
                proof {
                    use_type_invariant(&*self);
                }
                let ghost was = self.registration_errors@;
                let mut errors: Vec<HotkeyRegistrationError> = Vec::new();
                std::mem::swap(&mut errors, &mut self.registration_errors);
                errors.push(
                    HotkeyRegistrationError {
                        task_id: task_id.to_owned(),
                        hotkey: hotkey_str.to_owned(),
                        reason,
                    },
                );
                assert(errors@.drop_last() =~= was);
                self.registration_errors = errors;
            },
        }
    }

    /// Hands out the hotkeys that could not be taken.
    pub fn take_errors(&mut self) -> (r: Vec<HotkeyRegistrationError>)
        ensures
            r@ == old(self).errors(),
            final(self).errors() == Seq::<HotkeyRegistrationError>::empty(),
            final(self).table() == old(self).table(),
    {
        proof {
            use_type_invariant(&*self);
        }
        let mut errors: Vec<HotkeyRegistrationError> = Vec::new();
        std::mem::swap(&mut errors, &mut self.registration_errors);
        errors
    }

    /// Whether a hotkey could not be taken.
    pub fn has_errors(&self) -> (r: bool)
        ensures
            r == (self.errors().len() > 0),
    {
        self.registration_errors.len() > 0
    }

    /// The tasks that have a hotkey, each once.
    pub fn registered_task_ids(&self) -> (r: Vec<String>)
        ensures
            text::texts(r@).no_duplicates(),
            forall|id: Seq<char>| #[trigger]
                text::texts(r@).contains(id) <==> self.table().contains_key(id),
    {
        proof {
            use_type_invariant(self);
        }
        let mut r: Vec<String> = Vec::new();
        for i in 0..self.registered.len()
            invariant
                r@.len() == i,
                forall|k: int| 0 <= k < i ==> (#[trigger] r@[k])@ == self.registered@[k].task_id@,
        {
            r.push(self.registered[i].task_id.clone());
        }
        proof {
            let v = self.registered@;
            let t = text::texts(r@);
            assert forall|i: int, j: int| 0 <= i < t.len() && 0 <= j < t.len() && i != j implies t[i]
                != t[j] by {
                assert(t[i] == v[i].task_id@ && t[j] == v[j].task_id@);
                if i < j {
                    assert(v[i].task_id@ != v[j].task_id@);
                } else {
                    assert(v[j].task_id@ != v[i].task_id@);
                }
            }
            assert forall|id: Seq<char>| #[trigger] t.contains(id) <==> self.table().contains_key(
                id,
            ) by {
                if t.contains(id) {
                    let i = choose|i: int| 0 <= i < t.len() && t[i] == id;
                    assert(t[i] == v[i].task_id@);
                    lemma_registered(v, i);
                }
                if self.table().contains_key(id) {
                    lemma_has_place(v, id);
                    let i = choose|i: int| 0 <= i < v.len() && (#[trigger] v[i]).task_id@ == id;
                    assert(t[i] == id);
                }
            }
        }
        r
    }

    /// Gives up every hotkey.
    pub fn unregister_all(&mut self)
        ensures
            final(self).table() == Map::<Seq<char>, (HotKey, Seq<char>)>::empty(),
            final(self).errors() == old(self).errors(),
    {
        self.registered = Vec::new();
    }

    /// The table by which the keyboard hook finds the task of a key.
    pub fn flush_to_hook(&self) -> (r: TaskTable)
        ensures
            is_hook_table(self.table(), r@),
    {
        proof {
            use_type_invariant(self);
        }
        let mut r = TaskTable::new();
        let n: usize = self.registered.len();
        for i in 0..n
            invariant
                n == self.registered@.len(),
                ids_apart(self.registered@),
                forall|key: u64| #[trigger]
                    r@.contains_key(key) ==> self.table().contains_key(r@[key]) && key
                        == hook_binding(self.table()[r@[key]].0).spec_key(),
                forall|k: int|
                    0 <= k < i ==> r@.contains_key(
                        hook_binding((#[trigger] self.registered@[k]).hotkey).spec_key(),
                    ),
        {
            let key: u64 = hotkey_to_hook_binding(&self.registered[i].hotkey).key();
            proof {
                lemma_registered(self.registered@, i as int);
            }
            r.insert(key, self.registered[i].task_id.clone());
        }
        proof {
            assert forall|id: Seq<char>| #[trigger] self.table().contains_key(
                id,
            ) implies r@.contains_key(hook_binding(self.table()[id].0).spec_key()) by {
                lemma_has_place(self.registered@, id);
                let i = choose|i: int|
                    0 <= i < self.registered@.len() && (#[trigger] self.registered@[i]).task_id@
                        == id;
                lemma_registered(self.registered@, i);
            }
        }
        r
    }
}

// ---- from a hotkey to its task ---------------------------------------------------------------

/// A hotkey that one task alone has starts that task when it is pressed.
pub proof fn lemma_registered_hotkey_starts_its_task(
    hotkeys: Map<Seq<char>, (HotKey, Seq<char>)>,
    bound: Map<u64, Seq<char>>,
    id: Seq<char>,
    hook: HookState,
    v: HookVerdict,
)
    requires
        is_hook_table(hotkeys, bound),
        hotkeys.contains_key(id),
        forall|other: Seq<char>| #[trigger]
            hotkeys.contains_key(other) && hook_binding(hotkeys[other].0) == hook_binding(
                hotkeys[id].0,
            ) ==> other == id,
        hook.spec_bindings() == bound,
        hook.spec_enabled(),
        hook.spec_connected(),
        !hook.spec_capturing(),
        hook.spec_held() == hotkeys[id].0.mods,
        hook.pressed(keys::vk_of(hotkeys[id].0.key), v),
    ensures
        v matches HookVerdict::Tell { event } && (event matches HookEvent::Fire { task_id }
            && task_id@ == id),
{
    let b = hook_binding(hotkeys[id].0);
    let other = bound[b.spec_key()];
    assert(bound.contains_key(b.spec_key()));
    ll_hook::lemma_key_tells_bindings_apart(b, hook_binding(hotkeys[other].0));
}

/// A key that is no task's hotkey goes on to the other programs.
pub proof fn lemma_other_keys_pass(
    hotkeys: Map<Seq<char>, (HotKey, Seq<char>)>,
    bound: Map<u64, Seq<char>>,
    hook: HookState,
    vk: u32,
    v: HookVerdict,
)
    requires
        is_hook_table(hotkeys, bound),
        forall|id: Seq<char>| #[trigger]
            hotkeys.contains_key(id) ==> hook_binding(hotkeys[id].0) != (HookBinding {
                vk,
                mods: hook.spec_held().spec_mask() as u8,
            }),
        hook.spec_bindings() == bound,
        !hook.spec_capturing(),
        hook.pressed(vk, v),
    ensures
        v is Pass,
{
    let b = HookBinding { vk, mods: hook.spec_held().spec_mask() as u8 };
    if bound.contains_key(b.spec_key()) {
        ll_hook::lemma_key_tells_bindings_apart(
            b,
            hook_binding(hotkeys[bound[b.spec_key()]].0),
        );
    }
}

// ---- more laws ---------------------------------------------------------------------------------

/// The number of the modifiers has a bit for each: 1 for Ctrl, 2 for Alt, 4 for
/// Shift and 8 for Win.
pub proof fn lemma_mask_has_a_bit_for_each(m: Modifiers, r: u8)
    requires
        call_ensures(Modifiers::mask, (m,), r),
    ensures
        r < 16,
        (r % 2 == 1) == m.ctrl,
        (r / 2 % 2 == 1) == m.alt,
        (r / 4 % 2 == 1) == m.shift,
        (r / 8 % 2 == 1) == m.win,
{
}

/// Holding a key changes that key and no other.
pub proof fn lemma_each_modifier_is_held_alone(a: Modifiers, m: Modifier, held: bool, r: Modifiers)
    requires
        call_ensures(Modifiers::with, (a, m, held), r),
    ensures
        r.ctrl == if m == Modifier::Ctrl { held } else { a.ctrl },
        r.alt == if m == Modifier::Alt { held } else { a.alt },
        r.shift == if m == Modifier::Shift { held } else { a.shift },
        r.win == if m == Modifier::Win { held } else { a.win },
{
}

/// A modifier goes by its names and by no other.
pub proof fn lemma_modifiers_go_by_their_names(name: Seq<char>)
    ensures
        modifier_named(name) == Some(Modifier::Ctrl) <==> name == "ctrl"@ || name == "control"@,
        modifier_named(name) == Some(Modifier::Alt) <==> name == "alt"@,
        modifier_named(name) == Some(Modifier::Shift) <==> name == "shift"@,
        modifier_named(name) == Some(Modifier::Win) <==> name == "super"@ || name == "win"@ || name
            == "meta"@ || name == "cmd"@,
{
    reveal_strlit("ctrl");
    reveal_strlit("control");
    reveal_strlit("alt");
    reveal_strlit("shift");
    reveal_strlit("super");
    reveal_strlit("win");
    reveal_strlit("meta");
    reveal_strlit("cmd");
    assert("alt"@[0] == 'a' && "win"@[0] == 'w' && "cmd"@[0] == 'c');
    assert("ctrl"@[0] == 'c' && "meta"@[0] == 'm');
    assert("shift"@[1] == 'h' && "super"@[1] == 'u');
    assert("ctrl"@.len() == 4 && "meta"@.len() == 4 && "control"@.len() == 7);
    assert("shift"@.len() == 5 && "super"@.len() == 5);
    assert("alt"@.len() == 3 && "win"@.len() == 3 && "cmd"@.len() == 3);
}

/// A hotkey is written with its modifiers in the order Ctrl, Alt, Shift, Win, a
/// plus sign behind each, and then its key.
pub proof fn lemma_hotkeys_are_written_in_order(mods: Modifiers, code: Code, r: String, key: &'static str)
    requires
        call_ensures(format_hotkey, (mods, code), r),
        call_ensures(keys::format_code, (code,), key),
    ensures
        r@ == (if mods.ctrl {
            "Ctrl+"@
        } else {
            ""@
        }) + (if mods.alt {
            "Alt+"@
        } else {
            ""@
        }) + (if mods.shift {
            "Shift+"@
        } else {
            ""@
        }) + (if mods.win {
            "Win+"@
        } else {
            ""@
        }) + key@,
{
    reveal_strlit("");
    reveal_strlit("Ctrl");
    reveal_strlit("Ctrl+");
    reveal_strlit("Alt");
    reveal_strlit("Alt+");
    reveal_strlit("Shift");
    reveal_strlit("Shift+");
    reveal_strlit("Win");
    reveal_strlit("Win+");
    assert("Ctrl"@.push('+') =~= "Ctrl+"@);
    assert("Alt"@.push('+') =~= "Alt+"@);
    assert("Shift"@.push('+') =~= "Shift+"@);
    assert("Win"@.push('+') =~= "Win+"@);
    assert(r@ =~= (if mods.ctrl {
        "Ctrl+"@
    } else {
        ""@
    }) + (if mods.alt {
        "Alt+"@
    } else {
        ""@
    }) + (if mods.shift {
        "Shift+"@
    } else {
        ""@
    }) + (if mods.win {
        "Win+"@
    } else {
        ""@
    }) + key@);
}

/// The keyboard hook knows a hotkey by the virtual key of its key and by its
/// modifiers, each of which has its own bit.
pub proof fn lemma_hook_knows_the_hotkey(h: &HotKey, r: HookBinding, vk: u32)
    requires
        call_ensures(hotkey_to_hook_binding, (h,), r),
        call_ensures(keys::code_to_vk, (h.key,), vk),
    ensures
        r.vk == vk,
        r.mods < 16,
        (r.mods % 2 == 1) == h.mods.ctrl,
        (r.mods / 2 % 2 == 1) == h.mods.alt,
        (r.mods / 4 % 2 == 1) == h.mods.shift,
        (r.mods / 8 % 2 == 1) == h.mods.win,
{
}

/// A single character is never a hotkey by itself; a function key, and anything
/// with a plus sign, is never refused for want of a modifier.
#[verifier::rlimit(40)]
#[verifier::spinoff_prover]
pub proof fn lemma_typed_keys_need_a_modifier(s: &str, r: bool)
    requires
        call_ensures(is_risky_bare, (s,), r),
    ensures
        s@.len() == 1 && s@[0] != '+' ==> r,
        s@.contains('+') ==> !r,
        s@.len() == 0 ==> !r,
        s@ == "F1"@ || s@ == "F12"@ || s@ == "PrintScreen"@ || s@ == "Pause"@ ==> !r,
        s@ == "Space"@ || s@ == "Enter"@ || s@ == "Tab"@ ==> r,
{
    reveal_strlit("F1");
    reveal_strlit("F2");
    reveal_strlit("F3");
    reveal_strlit("F4");
    reveal_strlit("F5");
    reveal_strlit("F6");
    reveal_strlit("F7");
    reveal_strlit("F8");
    reveal_strlit("F9");
    reveal_strlit("F10");
    reveal_strlit("F11");
    reveal_strlit("F12");
    reveal_strlit("F13");
    reveal_strlit("F14");
    reveal_strlit("F15");
    reveal_strlit("F16");
    reveal_strlit("F17");
    reveal_strlit("F18");
    reveal_strlit("F19");
    reveal_strlit("F20");
    reveal_strlit("F21");
    reveal_strlit("F22");
    reveal_strlit("F23");
    reveal_strlit("F24");
    reveal_strlit("Pause");
    reveal_strlit("PrintScreen");
    reveal_strlit("ScrollLock");
    reveal_strlit("Numpad0");
    reveal_strlit("Numpad1");
    reveal_strlit("Numpad2");
    reveal_strlit("Numpad3");
    reveal_strlit("Numpad4");
    reveal_strlit("Numpad5");
    reveal_strlit("Numpad6");
    reveal_strlit("Numpad7");
    reveal_strlit("Numpad8");
    reveal_strlit("Numpad9");
    reveal_strlit("NumpadAdd");
    reveal_strlit("NumpadSubtract");
    reveal_strlit("NumpadMultiply");
    reveal_strlit("NumpadDivide");
    reveal_strlit("NumpadDecimal");
    reveal_strlit("NumpadEnter");
    reveal_strlit("Space");
    reveal_strlit("Enter");
    reveal_strlit("Tab");
    assert("Space"@[0] == 'S' && "Space"@[1] == 'p');
    assert("Enter"@[0] == 'E' && "Tab"@[0] == 'T' && "Pause"@[0] == 'P');
    assert("F10"@[0] == 'F');
    assert("F11"@[0] == 'F');
    assert("F12"@[0] == 'F');
    assert("F13"@[0] == 'F');
    assert("F14"@[0] == 'F');
    assert("F15"@[0] == 'F');
    assert("F16"@[0] == 'F');
    assert("F17"@[0] == 'F');
    assert("F18"@[0] == 'F');
    assert("F19"@[0] == 'F');
    assert("F20"@[0] == 'F');
    assert("F21"@[0] == 'F');
    assert("F22"@[0] == 'F');
    assert("F23"@[0] == 'F');
    assert("F24"@[0] == 'F');
    assert(!"Space"@.contains('+'));
    assert(!"Enter"@.contains('+'));
    assert(!"Tab"@.contains('+'));
    if s@.len() == 1 {
        assert(s@.contains('+') ==> s@[0] == '+');
    }
}

/// A hotkey is taken exactly where it can be read and has a modifier, or needs
/// none.
pub proof fn lemma_readable_hotkeys_are_taken(s: Seq<char>)
    ensures
        refusal(s) is None <==> hotkey_of(s) is Ok && !risky_bare(s),
{
}

} // verus!
