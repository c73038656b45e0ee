//! Input devices, read below the display server: which key or button starts
//! which task.

use vstd::prelude::*;

use crate::hotkeys::table::FireLog;
use crate::hotkeys::table::TaskTable;
use crate::hotkeys::table;
use crate::hotkeys::Modifier;
use crate::hotkeys::Modifiers;
use crate::text;

verus! {

pub const EV_KEY: u16 = 0x01;

pub const BTN_SIDE: u16 = 0x113;

pub const BTN_EXTRA: u16 = 0x114;

pub const BTN_FORWARD: u16 = 0x115;

pub const BTN_BACK: u16 = 0x116;

/// How long a record of an input device is.
pub const EVENT_SIZE: usize = 24;

// ---- names ---------------------------------------------------------------------------------

pub open spec fn button_named(name: Seq<char>) -> Option<u16> {
    if name == "MOUSE4"@ || name == "XBUTTON1"@ {
        Some(BTN_SIDE)
    } else if name == "MOUSE5"@ || name == "XBUTTON2"@ {
        Some(BTN_EXTRA)
    } else {
        None
    }
}

/// The button of a name in capitals.
pub fn button_code(name: &str) -> (r: Option<u16>)
    ensures
        r == button_named(name@),
{
    if text::same(name, "MOUSE4") || text::same(name, "XBUTTON1") {
        Some(BTN_SIDE)
    } else if text::same(name, "MOUSE5") || text::same(name, "XBUTTON2") {
        Some(BTN_EXTRA)
    } else {
        None
    }
}

/// The keys of the letters, from A to Z.
pub open spec fn letter_keys() -> Seq<u16> {
    seq![
        30, 48, 46, 32, 18, 33, 34, 35, 23, 36, 37, 38, 50, 49, 24, 25, 16, 19, 31, 20, 22, 47, 17,
        45, 21, 44,
    ]
}

/// The keys of the digits, from 0 to 9.
pub open spec fn digit_keys() -> Seq<u16> {
    seq![11, 2, 3, 4, 5, 6, 7, 8, 9, 10]
}

/// The value of a decimal number.
pub open spec fn decimal(s: Seq<char>) -> int
    decreases s.len(),
{
    if s.len() == 0 {
        0
    } else {
        decimal(s.drop_last()) * 10 + (s.last() as int - '0' as int)
    }
}

/// The text behind its plus sign, where it has one.
pub open spec fn unsigned(s: Seq<char>) -> Seq<char> {
    if s.len() > 0 && s[0] == '+' {
        s.skip(1)
    } else {
        s
    }
}

pub open spec fn all_digits(s: Seq<char>) -> bool {
    forall|i: int| 0 <= i < s.len() ==> '0' <= #[trigger] s[i] <= '9'
}

/// The text is a decimal number that fits in 16 bits, with or without a plus
/// sign.
pub open spec fn small_number(s: Seq<char>) -> Option<int> {
    let d = unsigned(s);
    if d.len() > 0 && all_digits(d) && decimal(d) <= 65535 {
        Some(decimal(d))
    } else {
        None
    }
}

proof fn lemma_decimal_grows(s: Seq<char>, i: int)
    requires
        0 <= i <= s.len(),
        all_digits(s),
    ensures
        0 <= decimal(s.take(i)) <= decimal(s),
    decreases s.len() - i, i,
{
    if i < s.len() {
        lemma_decimal_grows(s, i + 1);
        assert(s.take(i + 1).drop_last() =~= s.take(i));
        lemma_decimal_positive(s.take(i));
    } else {
        assert(s.take(i) =~= s);
        lemma_decimal_positive(s);
    }
}

proof fn lemma_decimal_positive(s: Seq<char>)
    requires
        all_digits(s),
    ensures
        0 <= decimal(s),
    decreases s.len(),
{
    if s.len() > 0 {
        assert('0' <= s[s.len() - 1]);
        lemma_decimal_positive(s.drop_last());
    }
}

fn read_number(a: &[char], from: usize) -> (r: Option<u16>)
    requires
        from <= a@.len(),
    ensures
        (match r {
            Some(n) => Some(n as int),
            None => None::<int>,
        }) == small_number(a@.skip(from as int)),
{
    let n: usize = a.len();
    let ghost rest = a@.skip(from as int);
    let start: usize = if from < n && a[from] == '+' {
        from + 1
    } else {
        from
    };
    let ghost d = a@.skip(start as int);
    assert(d =~= unsigned(rest));
    if start == n {
        return None;
    }
    let mut v: u32 = 0;
    let mut i: usize = start;
    while i < n
        invariant
            n == a@.len(),
            start <= i <= n,
            start < n,
            d == a@.skip(start as int),
            rest == a@.skip(from as int),
            d == unsigned(rest),
            forall|k: int| 0 <= k < i - start ==> '0' <= #[trigger] d[k] <= '9',
            v == decimal(d.take(i - start)),
            v <= 65535,
        decreases n - i,
    {
        let c = a[i];
        assert(d[i - start] == c);
        if !('0' <= c && c <= '9') {
            assert(!all_digits(d));
            return None;
        }
        assert(d.take(i + 1 - start).drop_last() =~= d.take(i - start));
        v = v * 10 + (c as u32 - 48);
        i = i + 1;
        if v > 65535 {
            proof {
                if all_digits(d) {
                    lemma_decimal_grows(d, i - start);
                }
            }
            return None;
        }
    }
    assert(d.take(n - start) =~= d);
    Some(v as u16)
}

/// The function key of a number.
pub open spec fn function_scan(n: int) -> Option<u16> {
    if 1 <= n <= 10 {
        Some((58 + n) as u16)
    } else if n == 11 {
        Some(87)
    } else if n == 12 {
        Some(88)
    } else if 13 <= n <= 24 {
        Some((170 + n) as u16)
    } else {
        None
    }
}

/// The key of any other name, but for those of the number pad.
pub open spec fn plain_scan(name: Seq<char>) -> Option<u16> {
    if name == "SPACE"@ {
        Some(57)
    } else if name == "ENTER"@ || name == "RETURN"@ {
        Some(28)
    } else if name == "TAB"@ {
        Some(15)
    } else if name == "ESCAPE"@ || name == "ESC"@ {
        Some(1)
    } else if name == "BACKSPACE"@ {
        Some(14)
    } else if name == "DELETE"@ || name == "DEL"@ {
        Some(111)
    } else if name == "INSERT"@ || name == "INS"@ {
        Some(110)
    } else if name == "HOME"@ {
        Some(102)
    } else if name == "END"@ {
        Some(107)
    } else if name == "PAGEUP"@ || name == "PGUP"@ {
        Some(104)
    } else if name == "PAGEDOWN"@ || name == "PGDN"@ {
        Some(109)
    } else if name == "UP"@ {
        Some(103)
    } else if name == "DOWN"@ {
        Some(108)
    } else if name == "LEFT"@ {
        Some(105)
    } else if name == "RIGHT"@ {
        Some(106)
    } else if name == "PRINTSCREEN"@ || name == "PRTSC"@ || name == "PRINT"@ {
        Some(99)
    } else if name == "PAUSE"@ || name == "PAUSEBREAK"@ || name == "BREAK"@ {
        Some(119)
    } else if name == "SCROLLLOCK"@ || name == "SCROLL"@ {
        Some(70)
    } else {
        None
    }
}

/// The key of the number pad.
pub open spec fn pad_scan(name: Seq<char>) -> Option<u16> {
    if name == "NUMPAD0"@ || name == "NUM0"@ || name == "KP0"@ {
        Some(82)
    } else if name == "NUMPAD1"@ || name == "NUM1"@ || name == "KP1"@ {
        Some(79)
    } else if name == "NUMPAD2"@ || name == "NUM2"@ || name == "KP2"@ {
        Some(80)
    } else if name == "NUMPAD3"@ || name == "NUM3"@ || name == "KP3"@ {
        Some(81)
    } else if name == "NUMPAD4"@ || name == "NUM4"@ || name == "KP4"@ {
        Some(75)
    } else if name == "NUMPAD5"@ || name == "NUM5"@ || name == "KP5"@ {
        Some(76)
    } else if name == "NUMPAD6"@ || name == "NUM6"@ || name == "KP6"@ {
        Some(77)
    } else if name == "NUMPAD7"@ || name == "NUM7"@ || name == "KP7"@ {
        Some(71)
    } else if name == "NUMPAD8"@ || name == "NUM8"@ || name == "KP8"@ {
        Some(72)
    } else if name == "NUMPAD9"@ || name == "NUM9"@ || name == "KP9"@ {
        Some(73)
    } else if name == "NUMPADADD"@ || name == "NUMADD"@ || name == "KPADD"@ {
        Some(78)
    } else if name == "NUMPADSUB"@ || name == "NUMSUB"@ || name == "KPSUB"@ || name == "NUMPADSUBTRACT"@ {
        Some(74)
    } else if name == "NUMPADMUL"@ || name == "NUMMUL"@ || name == "KPMUL"@ || name == "NUMPADMULTIPLY"@ {
        Some(55)
    } else if name == "NUMPADDIV"@ || name == "NUMDIV"@ || name == "KPDIV"@ || name == "NUMPADDIVIDE"@ {
        Some(98)
    } else if name == "NUMPADDOT"@ || name == "NUMDOT"@ || name == "KPDOT"@ || name == "NUMPADDECIMAL"@ {
        Some(83)
    } else if name == "NUMPADENTER"@ || name == "KPENTER"@ {
        Some(96)
    } else {
        None
    }
}

fn find_plain(name: &str) -> (r: Option<u16>)
    ensures
        r == plain_scan(name@),
{
    if text::same(name, "SPACE") {
        Some(57)
    } else if text::same(name, "ENTER") || text::same(name, "RETURN") {
        Some(28)
    } else if text::same(name, "TAB") {
        Some(15)
    } else if text::same(name, "ESCAPE") || text::same(name, "ESC") {
        Some(1)
    } else if text::same(name, "BACKSPACE") {
        Some(14)
    } else if text::same(name, "DELETE") || text::same(name, "DEL") {
        Some(111)
    } else if text::same(name, "INSERT") || text::same(name, "INS") {
        Some(110)
    } else if text::same(name, "HOME") {
        Some(102)
    } else if text::same(name, "END") {
        Some(107)
    } else if text::same(name, "PAGEUP") || text::same(name, "PGUP") {
        Some(104)
    } else if text::same(name, "PAGEDOWN") || text::same(name, "PGDN") {
        Some(109)
    } else if text::same(name, "UP") {
        Some(103)
    } else if text::same(name, "DOWN") {
        Some(108)
    } else if text::same(name, "LEFT") {
        Some(105)
    } else if text::same(name, "RIGHT") {
        Some(106)
    } else if text::same(name, "PRINTSCREEN") || text::same(name, "PRTSC") || text::same(name, "PRINT") {
        Some(99)
    } else if text::same(name, "PAUSE") || text::same(name, "PAUSEBREAK") || text::same(name, "BREAK") {
        Some(119)
    } else if text::same(name, "SCROLLLOCK") || text::same(name, "SCROLL") {
        Some(70)
    } else {
        None
    }
}

fn find_pad(name: &str) -> (r: Option<u16>)
    ensures
        r == pad_scan(name@),
{
    if text::same(name, "NUMPAD0") || text::same(name, "NUM0") || text::same(name, "KP0") {
        Some(82)
    } else if text::same(name, "NUMPAD1") || text::same(name, "NUM1") || text::same(name, "KP1") {
        Some(79)
    } else if text::same(name, "NUMPAD2") || text::same(name, "NUM2") || text::same(name, "KP2") {
        Some(80)
    } else if text::same(name, "NUMPAD3") || text::same(name, "NUM3") || text::same(name, "KP3") {
        Some(81)
    } else if text::same(name, "NUMPAD4") || text::same(name, "NUM4") || text::same(name, "KP4") {
        Some(75)
    } else if text::same(name, "NUMPAD5") || text::same(name, "NUM5") || text::same(name, "KP5") {
        Some(76)
    } else if text::same(name, "NUMPAD6") || text::same(name, "NUM6") || text::same(name, "KP6") {
        Some(77)
    } else if text::same(name, "NUMPAD7") || text::same(name, "NUM7") || text::same(name, "KP7") {
        Some(71)
    } else if text::same(name, "NUMPAD8") || text::same(name, "NUM8") || text::same(name, "KP8") {
        Some(72)
    } else if text::same(name, "NUMPAD9") || text::same(name, "NUM9") || text::same(name, "KP9") {
        Some(73)
    } else if text::same(name, "NUMPADADD") || text::same(name, "NUMADD") || text::same(name, "KPADD") {
        Some(78)
    } else if text::same(name, "NUMPADSUB") || text::same(name, "NUMSUB") || text::same(name, "KPSUB") || text::same(name, "NUMPADSUBTRACT") {
        Some(74)
    } else if text::same(name, "NUMPADMUL") || text::same(name, "NUMMUL") || text::same(name, "KPMUL") || text::same(name, "NUMPADMULTIPLY") {
        Some(55)
    } else if text::same(name, "NUMPADDIV") || text::same(name, "NUMDIV") || text::same(name, "KPDIV") || text::same(name, "NUMPADDIVIDE") {
        Some(98)
    } else if text::same(name, "NUMPADDOT") || text::same(name, "NUMDOT") || text::same(name, "KPDOT") || text::same(name, "NUMPADDECIMAL") {
        Some(83)
    } else if text::same(name, "NUMPADENTER") || text::same(name, "KPENTER") {
        Some(96)
    } else {
        None
    }
}

pub open spec fn key_scan(name: Seq<char>) -> Option<u16> {
    if name.len() == 1 && 'A' <= name[0] <= 'Z' {
        Some(letter_keys()[name[0] as int - 'A' as int])
    } else if name.len() == 1 && '0' <= name[0] <= '9' {
        Some(digit_keys()[name[0] as int - '0' as int])
    } else if name.len() > 0 && name[0] == 'F' && small_number(name.skip(1)) is Some {
        function_scan(small_number(name.skip(1))->0)
    } else if plain_scan(name) is Some {
        plain_scan(name)
    } else {
        pad_scan(name)
    }
}

/// The key of a name in capitals.
pub fn keyboard_code(name: &str) -> (r: Option<u16>)
    ensures
        r == key_scan(name@),
{
    let a = text::chars_of(name);
    if a.len() == 1 {
        let c = a[0];
        if 'A' <= c && c <= 'Z' {
            let letters: [u16; 26] = [
                30, 48, 46, 32, 18, 33, 34, 35, 23, 36, 37, 38, 50, 49, 24, 25, 16, 19, 31, 20, 22,
                47, 17, 45, 21, 44,
            ];
            assert(letters@ =~= letter_keys());
            return Some(letters[(c as u32 - 65) as usize]);
        }
        if '0' <= c && c <= '9' {
            let digits: [u16; 10] = [11, 2, 3, 4, 5, 6, 7, 8, 9, 10];
            assert(digits@ =~= digit_keys());
            return Some(digits[(c as u32 - 48) as usize]);
        }
    }
    if a.len() > 0 && a[0] == 'F' {
        if let Some(n) = read_number(&a, 1) {
            return if 1 <= n && n <= 10 {
                Some(58 + n)
            } else if n == 11 {
                Some(87)
            } else if n == 12 {
                Some(88)
            } else if 13 <= n && n <= 24 {
                Some(170 + n)
            } else {
                None
            };
        }
    }
    match find_plain(name) {
        Some(c) => Some(c),
        None => find_pad(name),
    }
}

pub open spec fn side_button(code: u16) -> Option<u16> {
    if code == BTN_SIDE || code == BTN_BACK {
        Some(BTN_SIDE)
    } else if code == BTN_EXTRA || code == BTN_FORWARD {
        Some(BTN_EXTRA)
    } else {
        None
    }
}

/// The button at the side that the code stands for. Mice name each in two ways.
pub fn normalize_button(code: u16) -> (r: Option<u16>)
    ensures
        r == side_button(code),
{
    if code == BTN_SIDE || code == BTN_BACK {
        Some(BTN_SIDE)
    } else if code == BTN_EXTRA || code == BTN_FORWARD {
        Some(BTN_EXTRA)
    } else {
        None
    }
}

pub open spec fn fires(code: u16, value: i32) -> bool {
    if side_button(code) is Some {
        value == 0
    } else {
        value == 1
    }
}

/// Whether a task starts: a button starts it when it is let go, a key when it
/// is pressed.
pub fn binding_fires_on_edge(code: u16, value: i32) -> (r: bool)
    ensures
        r == fires(code, value),
{
    match normalize_button(code) {
        Some(_) => value == 0,
        None => value == 1,
    }
}

// ---- bindings ------------------------------------------------------------------------------

/// The modifier of a name in capitals.
pub open spec fn upper_modifier(name: Seq<char>) -> Option<Modifier> {
    if name == "CTRL"@ || name == "CONTROL"@ {
        Some(Modifier::Ctrl)
    } else if name == "ALT"@ {
        Some(Modifier::Alt)
    } else if name == "SHIFT"@ {
        Some(Modifier::Shift)
    } else if name == "SUPER"@ || name == "WIN"@ || name == "META"@ || name == "CMD"@ {
        Some(Modifier::Win)
    } else {
        None
    }
}

fn find_modifier(name: &str) -> (r: Option<Modifier>)
    ensures
        r == upper_modifier(name@),
{
    if text::same(name, "CTRL") || text::same(name, "CONTROL") {
        Some(Modifier::Ctrl)
    } else if text::same(name, "ALT") {
        Some(Modifier::Alt)
    } else if text::same(name, "SHIFT") {
        Some(Modifier::Shift)
    } else if text::same(name, "SUPER") || text::same(name, "WIN") || text::same(name, "META")
        || text::same(name, "CMD") {
        Some(Modifier::Win)
    } else {
        None
    }
}

/// The button or key of a name in capitals.
pub open spec fn input_named(name: Seq<char>) -> Option<u16> {
    match button_named(name) {
        Some(b) => Some(b),
        None => key_scan(name),
    }
}

/// What the parts from `i` on make of what was read before them: the number of
/// the modifiers and the code of the one key or button.
pub open spec fn read_binding(
    parts: Seq<Seq<char>>,
    i: int,
    mods: Modifiers,
    code: Option<u16>,
) -> Option<(u8, u16)>
    decreases parts.len() - i,
{
    if i >= parts.len() {
        match code {
            Some(c) => Some((mods.spec_mask() as u8, c)),
            None => None,
        }
    } else {
        let p = text::ascii_upper_all(text::trim(parts[i]));
        match upper_modifier(p) {
            Some(m) => read_binding(parts, i + 1, mods.set(m, true), code),
            None => if code is Some || input_named(p) is None {
                None
            } else {
                read_binding(parts, i + 1, mods, input_named(p))
            },
        }
    }
}

pub open spec fn evdev_binding(s: Seq<char>) -> Option<(u8, u16)> {
    read_binding(text::split(s, '+'), 0, Modifiers::none(), None)
}

/// Reads a hotkey as modifiers and the one key or button that starts it.
pub fn parse_evdev_binding(s: &str) -> (r: Option<(u8, u16)>)
    ensures
        r == evdev_binding(s@),
{
    let parts = text::pieces(s, '+');
    let ghost all = text::split(s@, '+');
    let mut mods = Modifiers::empty();
    let mut code: Option<u16> = None;
    let n: usize = parts.len();
    for i in 0..n
        invariant
            n == parts@.len(),
            all == text::texts(parts@),
            evdev_binding(s@) == read_binding(all, i as int, mods, code),
    {
        assert(all[i as int] == parts@[i as int]@);
        let part = text::trimmed(parts[i].as_str());
        let name = text::ascii_uppered(part.as_str());
        match find_modifier(name.as_str()) {
            Some(m) => {
                mods = mods.with(m, true);
            },
            None => {
                if code.is_some() {
                    return None;
                }
                let found = match button_code(name.as_str()) {
                    Some(b) => Some(b),
                    None => keyboard_code(name.as_str()),
                };
                match found {
                    Some(c) => {
                        code = Some(c);
                    },
                    None => {
                        return None;
                    },
                }
            },
        }
    }
    match code {
        Some(c) => Some((mods.mask(), c)),
        None => None,
    }
}

/// Reads a hotkey of a button at the side of the mouse, and no other.
pub fn parse_mouse_binding(s: &str) -> (r: Option<(u8, u16)>)
    ensures
        r == (match evdev_binding(s@) {
            Some(b) => if b.1 == BTN_SIDE || b.1 == BTN_EXTRA {
                Some(b)
            } else {
                None
            },
            None => None,
        }),
{
    match parse_evdev_binding(s) {
        Some(b) => if b.1 == BTN_SIDE || b.1 == BTN_EXTRA {
            Some(b)
        } else {
            None
        },
        None => None,
    }
}

pub open spec fn spec_binding_key(mods: u8, code: u16) -> u64 {
    (code * 256 + mods) as u64
}

/// The number under which a binding stands in a table.
pub fn binding_key(mods: u8, code: u16) -> (r: u64)
    ensures
        r == spec_binding_key(mods, code),
{
    code as u64 * 256 + mods as u64
}

/// No two bindings stand under one number.
pub proof fn lemma_key_tells_bindings_apart(m: u8, c: u16, n: u8, d: u16)
    requires
        spec_binding_key(m, c) == spec_binding_key(n, d),
    ensures
        m == n && c == d,
{
}

// ---- devices -------------------------------------------------------------------------------

/// The modifier that a key is.
pub open spec fn modifier_key(code: u16) -> Option<Modifier> {
    if code == 29 || code == 97 {
        Some(Modifier::Ctrl)
    } else if code == 42 || code == 54 {
        Some(Modifier::Shift)
    } else if code == 56 || code == 100 {
        Some(Modifier::Alt)
    } else if code == 125 || code == 126 {
        Some(Modifier::Win)
    } else {
        None
    }
}

fn modifier_of(code: u16) -> (r: Option<Modifier>)
    ensures
        r == modifier_key(code),
{
    match code {
        29 | 97 => Some(Modifier::Ctrl),
        42 | 54 => Some(Modifier::Shift),
        56 | 100 => Some(Modifier::Alt),
        125 | 126 => Some(Modifier::Win),
        _ => None,
    }
}

/// The number of the modifier that a key is.
pub fn mod_bit(code: u16) -> (r: Option<u8>)
    ensures
        r == (match modifier_key(code) {
            Some(Modifier::Ctrl) => Some(1u8),
            Some(Modifier::Alt) => Some(2u8),
            Some(Modifier::Shift) => Some(4u8),
            Some(Modifier::Win) => Some(8u8),
            None => None,
        }),
{
    match modifier_of(code) {
        Some(Modifier::Ctrl) => Some(crate::hotkeys::MOD_CTRL),
        Some(Modifier::Alt) => Some(crate::hotkeys::MOD_ALT),
        Some(Modifier::Shift) => Some(crate::hotkeys::MOD_SHIFT),
        Some(Modifier::Win) => Some(crate::hotkeys::MOD_WIN),
        None => None,
    }
}

/// A record of an input device.
#[derive(Clone, Copy, PartialEq, Eq, Structural, Debug)]
pub struct InputRecord {
    pub kind: u16,
    pub code: u16,
    pub value: i32,
}

/// A signed number of 32 bits, by its bits.
pub open spec fn signed(bits: int) -> int {
    if bits < 0x8000_0000 {
        bits
    } else {
        bits - 0x1_0000_0000
    }
}

/// The number of two bytes, in the one order of bytes or the other.
pub open spec fn pair_at(buf: Seq<u8>, o: int, lowest_first: bool) -> int {
    if lowest_first {
        buf[o] + buf[o + 1] * 256
    } else {
        buf[o + 1] + buf[o] * 256
    }
}

/// The number of four bytes, in the one order of bytes or the other.
pub open spec fn word_at(buf: Seq<u8>, o: int, lowest_first: bool) -> int {
    if lowest_first {
        buf[o] + buf[o + 1] * 256 + buf[o + 2] * 65536 + buf[o + 3] * 16_777_216
    } else {
        buf[o + 3] + buf[o + 2] * 256 + buf[o + 1] * 65536 + buf[o] * 16_777_216
    }
}

fn read_pair(buf: &[u8], o: usize, lowest_first: bool) -> (r: u16)
    requires
        o + 2 <= buf@.len(),
    ensures
        r == pair_at(buf@, o as int, lowest_first),
{
    let n: usize = buf.len();
    assert(o + 2 <= n);
    if lowest_first {
        buf[o] as u16 + buf[o + 1] as u16 * 256
    } else {
        buf[o + 1] as u16 + buf[o] as u16 * 256
    }
}

fn read_word(buf: &[u8], o: usize, lowest_first: bool) -> (r: u32)
    requires
        o + 4 <= buf@.len(),
    ensures
        r == word_at(buf@, o as int, lowest_first),
{
    let n: usize = buf.len();
    assert(o + 2 <= n);
    if lowest_first {
        buf[o] as u32 + buf[o + 1] as u32 * 256 + buf[o + 2] as u32 * 65536 + buf[o + 3] as u32
            * 16_777_216
    } else {
        buf[o + 3] as u32 + buf[o + 2] as u32 * 256 + buf[o + 1] as u32 * 65536 + buf[o] as u32
            * 16_777_216
    }
}

/// `u16::from_ne_bytes`: the number of two bytes in the order of the machine, which
/// is the one or the other. Which of them it is, is left unsaid: machines differ.
#[verifier::external_body]
fn machine_number(first: u8, second: u8) -> (r: u16)
    ensures
        r == first + second * 256 || r == second + first * 256,
{
    u16::from_ne_bytes([first, second])
}

/// The record in the bytes: behind sixteen bytes of time the kind, the code and
/// the value.
pub open spec fn record_of(raw: Seq<u8>, lowest_first: bool) -> InputRecord {
    InputRecord {
        kind: pair_at(raw, 16, lowest_first) as u16,
        code: pair_at(raw, 18, lowest_first) as u16,
        value: signed(word_at(raw, 20, lowest_first)) as i32,
    }
}

/// Reads a record whose numbers have their bytes in the given order.
pub fn record_in(raw: &[u8; 24], lowest_first: bool) -> (r: InputRecord)
    ensures
        r == record_of(raw@, lowest_first),
{
    let bytes = raw.as_slice();
    let bits: i64 = read_word(bytes, 20, lowest_first) as i64;
    let value: i64 = if bits < 0x8000_0000 {
        bits
    } else {
        bits - 0x1_0000_0000
    };
    InputRecord {
        kind: read_pair(bytes, 16, lowest_first),
        code: read_pair(bytes, 18, lowest_first),
        value: value as i32,
    }
}

/// Reads a record of the kernel, whose numbers have their bytes in the order of
/// the machine.
pub fn decode_record(raw: &[u8; 24]) -> (r: InputRecord)
    ensures
        exists|lowest_first: bool| r == #[trigger] record_of(raw@, lowest_first),
{
    record_in(raw, machine_number(1, 0) == 1)
}

/// What a record does: the modifiers that are held from then on, and the key or
/// button for which to look for a task.
pub open spec fn on_record(held: Modifiers, r: InputRecord) -> (Modifiers, Option<u16>) {
    if r.kind != EV_KEY {
        (held, None)
    } else {
        match modifier_key(r.code) {
            Some(m) => if r.value == 1 {
                (held.set(m, true), None)
            } else if r.value == 0 {
                (held.set(m, false), None)
            } else {
                (held, None)
            },
            None => if fires(r.code, r.value) {
                match side_button(r.code) {
                    Some(b) => (held, Some(b)),
                    None => (held, Some(r.code)),
                }
            } else {
                (held, None)
            },
        }
    }
}

/// Takes in a record. A modifier is noted; of the rest the key or button comes
/// back for which to look for a task.
pub fn take_record(held: &mut Modifiers, r: InputRecord) -> (code: Option<u16>)
    ensures
        (*final(held), code) == on_record(*old(held), r),
{
    if r.kind != EV_KEY {
        return None;
    }
    match modifier_of(r.code) {
        Some(m) => {
            if r.value == 1 {
                *held = held.with(m, true);
            } else if r.value == 0 {
                *held = held.with(m, false);
            }
            None
        },
        None => if binding_fires_on_edge(r.code, r.value) {
            match normalize_button(r.code) {
                Some(b) => Some(b),
                None => Some(r.code),
            }
        } else {
            None
        },
    }
}

/// The key or button leads to the task `r`, or to none, and to what is noted in
/// `after`.
pub open spec fn dispatched(
    hotkeys_disabled: bool,
    bindings: Map<u64, Seq<char>>,
    held: Modifiers,
    code: u16,
    log: Map<Seq<char>, u64>,
    now: u64,
    r: Option<Seq<char>>,
    after: Map<Seq<char>, u64>,
) -> bool {
    let key = spec_binding_key(held.spec_mask() as u8, code);
    if hotkeys_disabled || !bindings.contains_key(key) {
        r is None && after == log
    } else {
        let task = bindings[key];
        if log.contains_key(task) && !table::far_apart(log[task], now) {
            r is None && after == log
        } else {
            r == Some(task) && after == log.insert(task, now)
        }
    }
}

/// The task that a key or button starts now. One that started within a quarter
/// of a second is not started again, and none is while hotkeys are switched
/// off.
pub fn dispatch(
    hotkeys_disabled: bool,
    bindings: &TaskTable,
    held: Modifiers,
    code: u16,
    log: &mut FireLog,
    now: u64,
) -> (r: Option<String>)
    ensures
        dispatched(
            hotkeys_disabled,
            bindings@,
            held,
            code,
            old(log)@,
            now,
            text::opt_owned(r),
            final(log)@,
        ),
{
    if hotkeys_disabled {
        return None;
    }
    match bindings.get(binding_key(held.mask(), code)) {
        Some(task_id) => if log.allow(task_id.as_str(), now) {
            Some(task_id)
        } else {
            None
        },
        None => None,
    }
}

/// How long to wait before each try to open a device that was just plugged in,
/// in milliseconds: six tries in all.
pub fn open_delay_ms(attempt: u32) -> (r: Option<u64>)
    ensures
        r == (if attempt == 0 {
            Some(0u64)
        } else if attempt == 1 {
            Some(50u64)
        } else if attempt == 2 {
            Some(100u64)
        } else if attempt == 3 {
            Some(200u64)
        } else if attempt == 4 {
            Some(400u64)
        } else if attempt == 5 {
            Some(800u64)
        } else {
            None
        }),
{
    match attempt {
        0 => Some(0),
        1 => Some(50),
        2 => Some(100),
        3 => Some(200),
        4 => Some(400),
        5 => Some(800),
        _ => None,
    }
}

// ---- devices that come and go ------------------------------------------------------------------

/// The bytes before the first nought.
pub open spec fn before_nought(s: Seq<u8>) -> Seq<u8>
    decreases s.len(),
{
    if s.len() == 0 || s[0] == 0 {
        Seq::empty()
    } else {
        seq![s[0]] + before_nought(s.skip(1))
    }
}

/// The names in the records from `o` on. A record is sixteen bytes, of which
/// the last four say how long the name behind them is; one that is cut off ends
/// the list. A name that is empty or no text is left out.
pub open spec fn names_from(buf: Seq<u8>, o: int, lowest_first: bool) -> Seq<Seq<char>>
    decreases buf.len() - o,
{
    if o < 0 || o + 16 > buf.len() {
        Seq::empty()
    } else {
        let end = o + 16 + word_at(buf, o + 12, lowest_first);
        if end > buf.len() || end <= o {
            Seq::empty()
        } else {
            let name = before_nought(buf.subrange(o + 16, end));
            if name.len() > 0 && vstd::utf8::valid_utf8(name) {
                seq![vstd::utf8::decode_utf8(name)] + names_from(buf, end, lowest_first)
            } else {
                names_from(buf, end, lowest_first)
            }
        }
    }
}

fn name_bytes(buf: &[u8], from: usize, to: usize) -> (r: Vec<u8>)
    requires
        from <= to <= buf@.len(),
    ensures
        r@ == before_nought(buf@.subrange(from as int, to as int)),
{
    let mut r: Vec<u8> = Vec::new();
    let ghost s = buf@.subrange(from as int, to as int);
    let mut i: usize = from;
    assert(s.skip(0) =~= s);
    assert(r@ + before_nought(s) =~= before_nought(s));
    while i < to && buf[i] != 0
        invariant
            from <= i <= to <= buf@.len(),
            s == buf@.subrange(from as int, to as int),
            r@ + before_nought(s.skip(i - from)) == before_nought(s),
        decreases to - i,
    {
        let ghost rest = s.skip(i - from);
        assert(rest[0] == buf@[i as int]);
        assert(rest.skip(1) =~= s.skip(i + 1 - from));
        assert(r@.push(buf@[i as int]) + before_nought(s.skip(i + 1 - from)) =~= r@ + (seq![
            buf@[i as int],
        ] + before_nought(s.skip(i + 1 - from))));
        r.push(buf[i]);
        i = i + 1;
    }
    assert(before_nought(s.skip(i - from)) =~= Seq::<u8>::empty());
    assert(r@ + Seq::<u8>::empty() =~= r@);
    r
}

/// The names in what is told of a directory, with the bytes of numbers in the given
/// order.
pub fn inotify_names(buf: &[u8], lowest_first: bool) -> (r: Vec<String>)
    ensures
        text::texts(r@) == names_from(buf@, 0, lowest_first),
{
    let mut names: Vec<String> = Vec::new();
    let n: usize = buf.len();
    let mut offset: usize = 0;
    assert(text::texts(names@) + names_from(buf@, 0, lowest_first) =~= names_from(buf@, 0, lowest_first));
    while offset <= n && n - offset >= 16
        invariant
            n == buf@.len(),
            offset <= n,
            text::texts(names@) + names_from(buf@, offset as int, lowest_first) == names_from(buf@, 0, lowest_first),
        decreases n - offset,
    {
        let len: u64 = read_word(buf, offset + 12, lowest_first) as u64;
        if (n - offset - 16) as u64 >= len {
            let end: usize = offset + 16 + len as usize;
            let bytes = name_bytes(buf, offset + 16, end);
            let ghost was = names@;
            if bytes.len() > 0 {
                match text::text_of_bytes(&bytes) {
                    Some(name) => {
                        names.push(name);
                        proof {
                            assert(text::texts(names@) =~= text::texts(was).push(name@));
                            assert(text::texts(was).push(name@) + names_from(buf@, end as int, lowest_first)
                                =~= text::texts(was) + (seq![name@] + names_from(
                                buf@,
                                end as int,
                                lowest_first,
                            )));
                        }
                    },
                    None => {},
                }
            }
            offset = end;
        } else {
            assert(names_from(buf@, offset as int, lowest_first) =~= Seq::<Seq<char>>::empty());
            assert(text::texts(names@) + Seq::<Seq<char>>::empty() =~= text::texts(names@));
            return names;
        }
    }
    assert(names_from(buf@, offset as int, lowest_first) =~= Seq::<Seq<char>>::empty());
    assert(text::texts(names@) + Seq::<Seq<char>>::empty() =~= text::texts(names@));
    names
}

/// The names in what the kernel tells of a directory, with the bytes of numbers in
/// the order of the machine.
pub fn parse_inotify_names(buf: &[u8]) -> (r: Vec<String>)
    ensures
        exists|lowest_first: bool|
            text::texts(r@) == #[trigger] names_from(buf@, 0, lowest_first),
{
    inotify_names(buf, machine_number(1, 0) == 1)
}

/// The device file of a name, where it is one of an input device.
pub fn device_path(name: &str) -> (r: Option<String>)
    ensures
        text::opt_owned(r) == (if text::starts_with(name@, "event"@) {
            Some("/dev/input/"@ + name@)
        } else {
            None
        }),
{
    if text::has_prefix(name, "event") {
        let mut s = String::from_str("/dev/input/");
        s.append(name);
        Some(s)
    } else {
        None
    }
}

/// The devices that are being read, so that none is read twice.
#[derive(Debug)]
pub struct LiveDevices {
    paths: Vec<String>,
}

impl View for LiveDevices {
    type V = Set<Seq<char>>;

    closed spec fn view(&self) -> Set<Seq<char>> {
        text::texts(self.paths@).to_set()
    }
}

/// No device is being read.
pub fn live() -> (r: LiveDevices)
    ensures
        r@ == Set::<Seq<char>>::empty(),
{
    let r = LiveDevices { paths: Vec::new() };
    assert(r@ =~= Set::<Seq<char>>::empty());
    r
}

impl LiveDevices {
    /// Notes that the device is being read. Says whether it was not yet.
    pub fn insert(&mut self, path: &str) -> (fresh: bool)
        ensures
            fresh == !old(self)@.contains(path@),
            final(self)@ == old(self)@.insert(path@),
    {
        let ghost was = text::texts(self.paths@);
        if text::list_has(&self.paths, path) {
            assert(self@ =~= old(self)@.insert(path@));
            return false;
        }
        self.paths.push(path.to_owned());
        proof {
            let now = text::texts(self.paths@);
            assert(now =~= was.push(path@));
            assert forall|t: Seq<char>| now.contains(t) <==> was.contains(t) || t == path@ by {
                if was.contains(t) {
                    let i = choose|i: int| 0 <= i < was.len() && was[i] == t;
                    assert(now[i] == t);
                }
                if t == path@ {
                    assert(now[was.len() as int] == t);
                }
            }
            assert(self@ =~= old(self)@.insert(path@));
        }
        true
    }

    /// Notes that the device is no longer being read.
    pub fn remove(&mut self, path: &str)
        ensures
            final(self)@ == old(self)@.remove(path@),
    {
        let ghost was = text::texts(self.paths@);
        let mut kept: Vec<String> = Vec::new();
        let n: usize = self.paths.len();
        for i in 0..n
            invariant
                n == self.paths@.len(),
                *self == *old(self),
                was == text::texts(self.paths@),
                forall|t: Seq<char>| #[trigger]
                    text::texts(kept@).contains(t) <==> was.take(i as int).contains(t) && t
                        != path@,
        {
            let ghost before = text::texts(kept@);
            let ghost s = was.take(i as int);
            let ghost next = was.take(i + 1);
            assert(next =~= s.push(was[i as int]));
            assert(was[i as int] == self.paths@[i as int]@);
            proof {
                assert forall|t: Seq<char>| next.contains(t) <==> s.contains(t) || t
                    == was[i as int] by {
                    if s.contains(t) {
                        let k = choose|k: int| 0 <= k < s.len() && s[k] == t;
                        assert(next[k] == t);
                    }
                    if t == was[i as int] {
                        assert(next[i as int] == t);
                    }
                }
            }
            if !text::same(self.paths[i].as_str(), path) {
                kept.push(self.paths[i].clone());
                proof {
                    let after = text::texts(kept@);
                    assert(after =~= before.push(was[i as int]));
                    assert forall|t: Seq<char>| #[trigger] after.contains(t) <==> next.contains(t)
                        && t != path@ by {
                        assert(before.contains(t) <==> s.contains(t) && t != path@);
                        if before.contains(t) {
                            let k = choose|k: int| 0 <= k < before.len() && before[k] == t;
                            assert(after[k] == t);
                        }
                        if t == was[i as int] {
                            assert(after[before.len() as int] == t);
                        }
                    }
                }
            } else {
                proof {
                    assert forall|t: Seq<char>| #[trigger] before.contains(t) <==> next.contains(t)
                        && t != path@ by {
                        assert(before.contains(t) <==> s.contains(t) && t != path@);
                    }
                }
            }
        }
        assert(was.take(n as int) =~= was);
        self.paths = kept;
        assert(self@ =~= old(self)@.remove(path@));
    }
}

// ---- laws --------------------------------------------------------------------------------------

/// The number of the letter at place `i` of a row of the keyboard that begins
/// with the number `first`.
pub open spec fn on_row(row: Seq<char>, first: int, name: Seq<char>, scan: u16) -> bool {
    forall|i: int|
        #![trigger row[i]]
        0 <= i < row.len() && name.len() == 1 && name[0] == row[i] ==> scan == first + i
}

/// The letters and digits are numbered row by row as they stand on the keyboard:
/// the digits from 1 to 0 begin with 2, the row of Q with 16, that of A with 30
/// and that of Z with 44.
pub proof fn lemma_letters_are_numbered_by_rows(name: &str, scan: u16)
    requires
        call_ensures(keyboard_code, (name,), Some(scan)),
    ensures
        on_row("1234567890"@, 2, name@, scan),
        on_row("QWERTYUIOP"@, 16, name@, scan),
        on_row("ASDFGHJKL"@, 30, name@, scan),
        on_row("ZXCVBNM"@, 44, name@, scan),
{
    reveal_strlit("1234567890");
    reveal_strlit("QWERTYUIOP");
    reveal_strlit("ASDFGHJKL");
    reveal_strlit("ZXCVBNM");
    let s = name@;
    if s.len() == 1 && '0' <= s[0] <= '9' {
        let k = digit_keys()[s[0] as int - '0' as int];
        assert(scan == k);
    }
    if s.len() == 1 && 'A' <= s[0] <= 'Z' {
        let k = letter_keys()[s[0] as int - 'A' as int];
        assert(scan == k);
    }
}

/// Every letter and digit has a key.
pub proof fn lemma_letters_have_keys(name: &str, r: Option<u16>)
    requires
        call_ensures(keyboard_code, (name,), r),
        name@.len() == 1,
        'A' <= name@[0] <= 'Z' || '0' <= name@[0] <= '9',
    ensures
        r is Some,
{
}

/// The keys of the number pad are numbered row by row, those of the others go by
/// their names and by no other.
pub proof fn lemma_device_numbers_of_names(name: Seq<char>)
    ensures
        pad_scan(name) == Some(71u16) ==> name == "NUMPAD7"@ || name == "NUM7"@ || name == "KP7"@,
        pad_scan(name) == Some(72u16) ==> name == "NUMPAD8"@ || name == "NUM8"@ || name == "KP8"@,
        pad_scan(name) == Some(73u16) ==> name == "NUMPAD9"@ || name == "NUM9"@ || name == "KP9"@,
        pad_scan(name) == Some(75u16) ==> name == "NUMPAD4"@ || name == "NUM4"@ || name == "KP4"@,
        pad_scan(name) == Some(76u16) ==> name == "NUMPAD5"@ || name == "NUM5"@ || name == "KP5"@,
        pad_scan(name) == Some(77u16) ==> name == "NUMPAD6"@ || name == "NUM6"@ || name == "KP6"@,
        pad_scan(name) == Some(79u16) ==> name == "NUMPAD1"@ || name == "NUM1"@ || name == "KP1"@,
        pad_scan(name) == Some(80u16) ==> name == "NUMPAD2"@ || name == "NUM2"@ || name == "KP2"@,
        pad_scan(name) == Some(81u16) ==> name == "NUMPAD3"@ || name == "NUM3"@ || name == "KP3"@,
        pad_scan(name) == Some(82u16) ==> name == "NUMPAD0"@ || name == "NUM0"@ || name == "KP0"@,
        pad_scan(name) == Some(78u16) ==> name == "NUMPADADD"@ || name == "NUMADD"@ || name
            == "KPADD"@,
        pad_scan(name) == Some(74u16) ==> name == "NUMPADSUB"@ || name == "NUMSUB"@ || name
            == "KPSUB"@ || name == "NUMPADSUBTRACT"@,
        pad_scan(name) == Some(55u16) ==> name == "NUMPADMUL"@ || name == "NUMMUL"@ || name
            == "KPMUL"@ || name == "NUMPADMULTIPLY"@,
        pad_scan(name) == Some(98u16) ==> name == "NUMPADDIV"@ || name == "NUMDIV"@ || name
            == "KPDIV"@ || name == "NUMPADDIVIDE"@,
        pad_scan(name) == Some(83u16) ==> name == "NUMPADDOT"@ || name == "NUMDOT"@ || name
            == "KPDOT"@ || name == "NUMPADDECIMAL"@,
        pad_scan(name) == Some(96u16) ==> name == "NUMPADENTER"@ || name == "KPENTER"@,
        pad_scan(name) matches Some(c) ==> 71 <= c <= 83 || c == 55 || c == 98 || c == 96,
        plain_scan(name) == Some(57u16) ==> name == "SPACE"@,
        plain_scan(name) == Some(28u16) ==> name == "ENTER"@ || name == "RETURN"@,
        plain_scan(name) == Some(15u16) ==> name == "TAB"@,
        plain_scan(name) == Some(1u16) ==> name == "ESCAPE"@ || name == "ESC"@,
        plain_scan(name) == Some(14u16) ==> name == "BACKSPACE"@,
        plain_scan(name) == Some(111u16) ==> name == "DELETE"@ || name == "DEL"@,
        plain_scan(name) == Some(110u16) ==> name == "INSERT"@ || name == "INS"@,
        plain_scan(name) == Some(102u16) ==> name == "HOME"@,
        plain_scan(name) == Some(107u16) ==> name == "END"@,
        plain_scan(name) == Some(104u16) ==> name == "PAGEUP"@ || name == "PGUP"@,
        plain_scan(name) == Some(109u16) ==> name == "PAGEDOWN"@ || name == "PGDN"@,
        plain_scan(name) == Some(103u16) ==> name == "UP"@,
        plain_scan(name) == Some(108u16) ==> name == "DOWN"@,
        plain_scan(name) == Some(105u16) ==> name == "LEFT"@,
        plain_scan(name) == Some(106u16) ==> name == "RIGHT"@,
        plain_scan(name) == Some(99u16) ==> name == "PRINTSCREEN"@ || name == "PRTSC"@ || name
            == "PRINT"@,
        plain_scan(name) == Some(119u16) ==> name == "PAUSE"@ || name == "PAUSEBREAK"@ || name
            == "BREAK"@,
        plain_scan(name) == Some(70u16) ==> name == "SCROLLLOCK"@ || name == "SCROLL"@,
        plain_scan(name) matches Some(c) ==> c == 57 || c == 28 || c == 15 || c == 1 || c == 14
            || 102 <= c <= 111 || c == 99 || c == 119 || c == 70,
{
}

/// The function keys are numbered in their order: the first ten from 59 on, the
/// next two at 87 and 88, and the rest from 183 on.
pub proof fn lemma_function_keys_are_numbered_in_order(n: int)
    ensures
        1 <= n <= 10 ==> function_scan(n) == Some((59 + (n - 1)) as u16),
        n == 11 ==> function_scan(n) == Some(87u16),
        n == 12 ==> function_scan(n) == Some(88u16),
        13 <= n <= 24 ==> function_scan(n) == Some((183 + (n - 13)) as u16),
        n < 1 || n > 24 ==> function_scan(n) is None,
{
}

/// Both keys of each modifier count: Ctrl is 29 and 97, Shift 42 and 54, Alt 56
/// and 100, Win 125 and 126. Their bits are 1, 4, 2 and 8.
pub proof fn lemma_device_modifiers(code: u16, r: Option<u8>)
    requires
        call_ensures(mod_bit, (code,), r),
    ensures
        r == Some(1u8) <==> code == 29 || code == 97,
        r == Some(4u8) <==> code == 42 || code == 54,
        r == Some(2u8) <==> code == 56 || code == 100,
        r == Some(8u8) <==> code == 125 || code == 126,
        r matches Some(b) ==> b == 1 || b == 2 || b == 4 || b == 8,
{
}

/// The two side buttons go by two numbers each, the back one by 0x113 and 0x116,
/// the forward one by 0x114 and 0x115, and by the names that other systems give
/// them.
pub proof fn lemma_side_buttons(code: u16, name: &str, r: Option<u16>, n: Option<u16>)
    requires
        call_ensures(normalize_button, (code,), r),
        call_ensures(button_code, (name,), n),
    ensures
        r == Some(0x113u16) <==> code == 0x113 || code == 0x116,
        r == Some(0x114u16) <==> code == 0x114 || code == 0x115,
        r is Some <==> 0x113 <= code <= 0x116,
        n == Some(0x113u16) ==> name@ == "MOUSE4"@ || name@ == "XBUTTON1"@,
        n == Some(0x114u16) ==> name@ == "MOUSE5"@ || name@ == "XBUTTON2"@,
        n matches Some(c) ==> c == 0x113 || c == 0x114,
        name@ == "MOUSE4"@ || name@ == "MOUSE5"@ ==> n is Some,
{
}

/// A modifier is held from the press to the release of either of its keys; what
/// repeats in between changes nothing, and it starts no task. A key counts when
/// it is pressed, a side button when it is let go.
pub proof fn lemma_records_are_taken(held: Modifiers, code: u16, value: i32)
    ensures
        ({
            let (is, found) = on_record(held, InputRecord { kind: 1, code, value });
            let ctrl = code == 29 || code == 97;
            let shift = code == 42 || code == 54;
            let alt = code == 56 || code == 100;
            let win = code == 125 || code == 126;
            let edge = value == 0 || value == 1;
            &&& is.ctrl == if ctrl && edge { value == 1 } else { held.ctrl }
            &&& is.shift == if shift && edge { value == 1 } else { held.shift }
            &&& is.alt == if alt && edge { value == 1 } else { held.alt }
            &&& is.win == if win && edge { value == 1 } else { held.win }
            &&& ctrl || shift || alt || win ==> found is None
            &&& !(ctrl || shift || alt || win) && !(0x113 <= code <= 0x116) ==> (found is Some
                <==> value == 1) && (found matches Some(c) ==> c == code)
            &&& 0x113 <= code <= 0x116 ==> (found is Some <==> value == 0)
        }),
        forall|kind: u16|
            kind != 1 ==> #[trigger] on_record(held, InputRecord { kind, code, value }) == (
                held,
                None::<u16>,
            ),
{
}

/// A key that is pressed while modifiers are held starts the task that is bound
/// to it with exactly these: Ctrl counts 1, Alt 2, Shift 4 and Win 8. While
/// hotkeys are switched off nothing starts.
pub proof fn lemma_pressed_key_starts_its_task(
    disabled: bool,
    bindings: Map<u64, Seq<char>>,
    held: Modifiers,
    code: u16,
    log: Map<Seq<char>, u64>,
    now: u64,
    r: Option<Seq<char>>,
    after: Map<Seq<char>, u64>,
)
    requires
        dispatched(disabled, bindings, held, code, log, now, r, after),
    ensures
        ({
            let key = (code * 256 + (if held.ctrl {
                1int
            } else {
                0
            }) + (if held.alt {
                2int
            } else {
                0
            }) + (if held.shift {
                4int
            } else {
                0
            }) + (if held.win {
                8int
            } else {
                0
            })) as u64;
            &&& disabled || !bindings.contains_key(key) ==> r is None && after == log
            &&& !disabled && bindings.contains_key(key) && !log.contains_key(bindings[key]) ==> r
                == Some(bindings[key])
            &&& r matches Some(t) ==> bindings.contains_key(key) && t == bindings[key]
                && after.contains_key(t) && after[t] == now
        }),
{
}

/// A press that the device tells a second time within a quarter of a second
/// starts nothing, and one that comes later does.
pub proof fn lemma_bounced_press_starts_nothing(
    bindings: Map<u64, Seq<char>>,
    held: Modifiers,
    code: u16,
    log: Map<Seq<char>, u64>,
    first: u64,
    r: Option<Seq<char>>,
    between: Map<Seq<char>, u64>,
    second: u64,
    s: Option<Seq<char>>,
    after: Map<Seq<char>, u64>,
)
    requires
        dispatched(false, bindings, held, code, log, first, r, between),
        dispatched(false, bindings, held, code, between, second, s, after),
        r is Some,
        first <= second,
    ensures
        second - first < 251_000_000 ==> s is None && after == between,
        second - first >= 251_000_000 ==> s == r,
{
}

/// The numbers of a record stand behind its sixteen bytes of time: the kind, the
/// code and, with its sign, the value.
pub proof fn lemma_records_are_read(raw: &[u8; 24], r: InputRecord)
    requires
        call_ensures(record_in, (raw, true), r),
    ensures
        r.kind == raw@[16] + 0x100 * raw@[17],
        r.code == raw@[18] + 0x100 * raw@[19],
        ({
            let bits = raw@[20] + 0x100 * raw@[21] + 0x1_0000 * raw@[22] + 0x100_0000 * raw@[23];
            r.value == bits || r.value + 0x1_0000_0000 == bits
        }),
{
}

} // verus!
