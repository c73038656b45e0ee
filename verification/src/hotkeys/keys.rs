//! Keys: their names, and the numbers by which the system knows them.

use vstd::prelude::*;

use crate::text;

verus! {

/// A key of the keyboard.
#[derive(Clone, Copy, PartialEq, Eq, Structural, Debug)]
pub enum Code {
    KeyA,
    KeyB,
    KeyC,
    KeyD,
    KeyE,
    KeyF,
    KeyG,
    KeyH,
    KeyI,
    KeyJ,
    KeyK,
    KeyL,
    KeyM,
    KeyN,
    KeyO,
    KeyP,
    KeyQ,
    KeyR,
    KeyS,
    KeyT,
    KeyU,
    KeyV,
    KeyW,
    KeyX,
    KeyY,
    KeyZ,
    Digit0,
    Digit1,
    Digit2,
    Digit3,
    Digit4,
    Digit5,
    Digit6,
    Digit7,
    Digit8,
    Digit9,
    F1,
    F2,
    F3,
    F4,
    F5,
    F6,
    F7,
    F8,
    F9,
    F10,
    F11,
    F12,
    F13,
    F14,
    F15,
    F16,
    F17,
    F18,
    F19,
    F20,
    F21,
    F22,
    F23,
    F24,
    Space,
    Enter,
    Tab,
    Escape,
    Backspace,
    Delete,
    Insert,
    Home,
    End,
    PageUp,
    PageDown,
    ArrowUp,
    ArrowDown,
    ArrowLeft,
    ArrowRight,
    PrintScreen,
    Pause,
    ScrollLock,
    Numpad0,
    Numpad1,
    Numpad2,
    Numpad3,
    Numpad4,
    Numpad5,
    Numpad6,
    Numpad7,
    Numpad8,
    Numpad9,
    NumpadAdd,
    NumpadSubtract,
    NumpadMultiply,
    NumpadDivide,
    NumpadDecimal,
    NumpadEnter,
}

// ---- names that are read ---------------------------------------------------------------------

/// The key of a letter.
pub open spec fn letter_named(name: Seq<char>) -> Option<Code> {
    if name == "A"@ {
        Some(Code::KeyA)
    } else if name == "B"@ {
        Some(Code::KeyB)
    } else if name == "C"@ {
        Some(Code::KeyC)
    } else if name == "D"@ {
        Some(Code::KeyD)
    } else if name == "E"@ {
        Some(Code::KeyE)
    } else if name == "F"@ {
        Some(Code::KeyF)
    } else if name == "G"@ {
        Some(Code::KeyG)
    } else if name == "H"@ {
        Some(Code::KeyH)
    } else if name == "I"@ {
        Some(Code::KeyI)
    } else if name == "J"@ {
        Some(Code::KeyJ)
    } else if name == "K"@ {
        Some(Code::KeyK)
    } else if name == "L"@ {
        Some(Code::KeyL)
    } else if name == "M"@ {
        Some(Code::KeyM)
    } else if name == "N"@ {
        Some(Code::KeyN)
    } else if name == "O"@ {
        Some(Code::KeyO)
    } else if name == "P"@ {
        Some(Code::KeyP)
    } else if name == "Q"@ {
        Some(Code::KeyQ)
    } else if name == "R"@ {
        Some(Code::KeyR)
    } else if name == "S"@ {
        Some(Code::KeyS)
    } else if name == "T"@ {
        Some(Code::KeyT)
    } else if name == "U"@ {
        Some(Code::KeyU)
    } else if name == "V"@ {
        Some(Code::KeyV)
    } else if name == "W"@ {
        Some(Code::KeyW)
    } else if name == "X"@ {
        Some(Code::KeyX)
    } else if name == "Y"@ {
        Some(Code::KeyY)
    } else if name == "Z"@ {
        Some(Code::KeyZ)
    } else {
        None
    }
}

fn find_letter(name: &str) -> (r: Option<Code>)
    ensures
        r == letter_named(name@),
{
    if text::same(name, "A") {
        Some(Code::KeyA)
    } else if text::same(name, "B") {
        Some(Code::KeyB)
    } else if text::same(name, "C") {
        Some(Code::KeyC)
    } else if text::same(name, "D") {
        Some(Code::KeyD)
    } else if text::same(name, "E") {
        Some(Code::KeyE)
    } else if text::same(name, "F") {
        Some(Code::KeyF)
    } else if text::same(name, "G") {
        Some(Code::KeyG)
    } else if text::same(name, "H") {
        Some(Code::KeyH)
    } else if text::same(name, "I") {
        Some(Code::KeyI)
    } else if text::same(name, "J") {
        Some(Code::KeyJ)
    } else if text::same(name, "K") {
        Some(Code::KeyK)
    } else if text::same(name, "L") {
        Some(Code::KeyL)
    } else if text::same(name, "M") {
        Some(Code::KeyM)
    } else if text::same(name, "N") {
        Some(Code::KeyN)
    } else if text::same(name, "O") {
        Some(Code::KeyO)
    } else if text::same(name, "P") {
        Some(Code::KeyP)
    } else if text::same(name, "Q") {
        Some(Code::KeyQ)
    } else if text::same(name, "R") {
        Some(Code::KeyR)
    } else if text::same(name, "S") {
        Some(Code::KeyS)
    } else if text::same(name, "T") {
        Some(Code::KeyT)
    } else if text::same(name, "U") {
        Some(Code::KeyU)
    } else if text::same(name, "V") {
        Some(Code::KeyV)
    } else if text::same(name, "W") {
        Some(Code::KeyW)
    } else if text::same(name, "X") {
        Some(Code::KeyX)
    } else if text::same(name, "Y") {
        Some(Code::KeyY)
    } else if text::same(name, "Z") {
        Some(Code::KeyZ)
    } else {
        None
    }
}

/// The key of a digit above the letters.
pub open spec fn digit_named(name: Seq<char>) -> Option<Code> {
    if name == "0"@ {
        Some(Code::Digit0)
    } else if name == "1"@ {
        Some(Code::Digit1)
    } else if name == "2"@ {
        Some(Code::Digit2)
    } else if name == "3"@ {
        Some(Code::Digit3)
    } else if name == "4"@ {
        Some(Code::Digit4)
    } else if name == "5"@ {
        Some(Code::Digit5)
    } else if name == "6"@ {
        Some(Code::Digit6)
    } else if name == "7"@ {
        Some(Code::Digit7)
    } else if name == "8"@ {
        Some(Code::Digit8)
    } else if name == "9"@ {
        Some(Code::Digit9)
    } else {
        None
    }
}

fn find_digit(name: &str) -> (r: Option<Code>)
    ensures
        r == digit_named(name@),
{
    if text::same(name, "0") {
        Some(Code::Digit0)
    } else if text::same(name, "1") {
        Some(Code::Digit1)
    } else if text::same(name, "2") {
        Some(Code::Digit2)
    } else if text::same(name, "3") {
        Some(Code::Digit3)
    } else if text::same(name, "4") {
        Some(Code::Digit4)
    } else if text::same(name, "5") {
        Some(Code::Digit5)
    } else if text::same(name, "6") {
        Some(Code::Digit6)
    } else if text::same(name, "7") {
        Some(Code::Digit7)
    } else if text::same(name, "8") {
        Some(Code::Digit8)
    } else if text::same(name, "9") {
        Some(Code::Digit9)
    } else {
        None
    }
}

/// The key of a function.
pub open spec fn function_named(name: Seq<char>) -> Option<Code> {
    if name == "F1"@ {
        Some(Code::F1)
    } else if name == "F2"@ {
        Some(Code::F2)
    } else if name == "F3"@ {
        Some(Code::F3)
    } else if name == "F4"@ {
        Some(Code::F4)
    } else if name == "F5"@ {
        Some(Code::F5)
    } else if name == "F6"@ {
        Some(Code::F6)
    } else if name == "F7"@ {
        Some(Code::F7)
    } else if name == "F8"@ {
        Some(Code::F8)
    } else if name == "F9"@ {
        Some(Code::F9)
    } else if name == "F10"@ {
        Some(Code::F10)
    } else if name == "F11"@ {
        Some(Code::F11)
    } else if name == "F12"@ {
        Some(Code::F12)
    } else if name == "F13"@ {
        Some(Code::F13)
    } else if name == "F14"@ {
        Some(Code::F14)
    } else if name == "F15"@ {
        Some(Code::F15)
    } else if name == "F16"@ {
        Some(Code::F16)
    } else if name == "F17"@ {
        Some(Code::F17)
    } else if name == "F18"@ {
        Some(Code::F18)
    } else if name == "F19"@ {
        Some(Code::F19)
    } else if name == "F20"@ {
        Some(Code::F20)
    } else if name == "F21"@ {
        Some(Code::F21)
    } else if name == "F22"@ {
        Some(Code::F22)
    } else if name == "F23"@ {
        Some(Code::F23)
    } else if name == "F24"@ {
        Some(Code::F24)
    } else {
        None
    }
}

fn find_function(name: &str) -> (r: Option<Code>)
    ensures
        r == function_named(name@),
{
    if text::same(name, "F1") {
        Some(Code::F1)
    } else if text::same(name, "F2") {
        Some(Code::F2)
    } else if text::same(name, "F3") {
        Some(Code::F3)
    } else if text::same(name, "F4") {
        Some(Code::F4)
    } else if text::same(name, "F5") {
        Some(Code::F5)
    } else if text::same(name, "F6") {
        Some(Code::F6)
    } else if text::same(name, "F7") {
        Some(Code::F7)
    } else if text::same(name, "F8") {
        Some(Code::F8)
    } else if text::same(name, "F9") {
        Some(Code::F9)
    } else if text::same(name, "F10") {
        Some(Code::F10)
    } else if text::same(name, "F11") {
        Some(Code::F11)
    } else if text::same(name, "F12") {
        Some(Code::F12)
    } else if text::same(name, "F13") {
        Some(Code::F13)
    } else if text::same(name, "F14") {
        Some(Code::F14)
    } else if text::same(name, "F15") {
        Some(Code::F15)
    } else if text::same(name, "F16") {
        Some(Code::F16)
    } else if text::same(name, "F17") {
        Some(Code::F17)
    } else if text::same(name, "F18") {
        Some(Code::F18)
    } else if text::same(name, "F19") {
        Some(Code::F19)
    } else if text::same(name, "F20") {
        Some(Code::F20)
    } else if text::same(name, "F21") {
        Some(Code::F21)
    } else if text::same(name, "F22") {
        Some(Code::F22)
    } else if text::same(name, "F23") {
        Some(Code::F23)
    } else if text::same(name, "F24") {
        Some(Code::F24)
    } else {
        None
    }
}

/// The key of any other name, but for those of the number pad.
pub open spec fn plain_named(name: Seq<char>) -> Option<Code> {
    if name == "SPACE"@ {
        Some(Code::Space)
    } else if name == "ENTER"@ || name == "RETURN"@ {
        Some(Code::Enter)
    } else if name == "TAB"@ {
        Some(Code::Tab)
    } else if name == "ESCAPE"@ || name == "ESC"@ {
        Some(Code::Escape)
    } else if name == "BACKSPACE"@ {
        Some(Code::Backspace)
    } else if name == "DELETE"@ || name == "DEL"@ {
        Some(Code::Delete)
    } else if name == "INSERT"@ || name == "INS"@ {
        Some(Code::Insert)
    } else if name == "HOME"@ {
        Some(Code::Home)
    } else if name == "END"@ {
        Some(Code::End)
    } else if name == "PAGEUP"@ || name == "PGUP"@ {
        Some(Code::PageUp)
    } else if name == "PAGEDOWN"@ || name == "PGDN"@ {
        Some(Code::PageDown)
    } else if name == "UP"@ {
        Some(Code::ArrowUp)
    } else if name == "DOWN"@ {
        Some(Code::ArrowDown)
    } else if name == "LEFT"@ {
        Some(Code::ArrowLeft)
    } else if name == "RIGHT"@ {
        Some(Code::ArrowRight)
    } else if name == "PRINTSCREEN"@ || name == "PRTSC"@ || name == "PRINT"@ {
        Some(Code::PrintScreen)
    } else if name == "PAUSE"@ || name == "PAUSEBREAK"@ || name == "BREAK"@ {
        Some(Code::Pause)
    } else if name == "SCROLLLOCK"@ || name == "SCROLL"@ {
        Some(Code::ScrollLock)
    } else {
        None
    }
}

fn find_plain(name: &str) -> (r: Option<Code>)
    ensures
        r == plain_named(name@),
{
    if text::same(name, "SPACE") {
        Some(Code::Space)
    } else if text::same(name, "ENTER") || text::same(name, "RETURN") {
        Some(Code::Enter)
    } else if text::same(name, "TAB") {
        Some(Code::Tab)
    } else if text::same(name, "ESCAPE") || text::same(name, "ESC") {
        Some(Code::Escape)
    } else if text::same(name, "BACKSPACE") {
        Some(Code::Backspace)
    } else if text::same(name, "DELETE") || text::same(name, "DEL") {
        Some(Code::Delete)
    } else if text::same(name, "INSERT") || text::same(name, "INS") {
        Some(Code::Insert)
    } else if text::same(name, "HOME") {
        Some(Code::Home)
    } else if text::same(name, "END") {
        Some(Code::End)
    } else if text::same(name, "PAGEUP") || text::same(name, "PGUP") {
        Some(Code::PageUp)
    } else if text::same(name, "PAGEDOWN") || text::same(name, "PGDN") {
        Some(Code::PageDown)
    } else if text::same(name, "UP") {
        Some(Code::ArrowUp)
    } else if text::same(name, "DOWN") {
        Some(Code::ArrowDown)
    } else if text::same(name, "LEFT") {
        Some(Code::ArrowLeft)
    } else if text::same(name, "RIGHT") {
        Some(Code::ArrowRight)
    } else if text::same(name, "PRINTSCREEN") || text::same(name, "PRTSC") || text::same(name, "PRINT") {
        Some(Code::PrintScreen)
    } else if text::same(name, "PAUSE") || text::same(name, "PAUSEBREAK") || text::same(name, "BREAK") {
        Some(Code::Pause)
    } else if text::same(name, "SCROLLLOCK") || text::same(name, "SCROLL") {
        Some(Code::ScrollLock)
    } else {
        None
    }
}

/// The key of the number pad.
pub open spec fn pad_named(name: Seq<char>) -> Option<Code> {
    if name == "NUMPAD0"@ || name == "NUM0"@ || name == "KP0"@ {
        Some(Code::Numpad0)
    } else if name == "NUMPAD1"@ || name == "NUM1"@ || name == "KP1"@ {
        Some(Code::Numpad1)
    } else if name == "NUMPAD2"@ || name == "NUM2"@ || name == "KP2"@ {
        Some(Code::Numpad2)
    } else if name == "NUMPAD3"@ || name == "NUM3"@ || name == "KP3"@ {
        Some(Code::Numpad3)
    } else if name == "NUMPAD4"@ || name == "NUM4"@ || name == "KP4"@ {
        Some(Code::Numpad4)
    } else if name == "NUMPAD5"@ || name == "NUM5"@ || name == "KP5"@ {
        Some(Code::Numpad5)
    } else if name == "NUMPAD6"@ || name == "NUM6"@ || name == "KP6"@ {
        Some(Code::Numpad6)
    } else if name == "NUMPAD7"@ || name == "NUM7"@ || name == "KP7"@ {
        Some(Code::Numpad7)
    } else if name == "NUMPAD8"@ || name == "NUM8"@ || name == "KP8"@ {
        Some(Code::Numpad8)
    } else if name == "NUMPAD9"@ || name == "NUM9"@ || name == "KP9"@ {
        Some(Code::Numpad9)
    } else if name == "NUMPADADD"@ || name == "NUMADD"@ || name == "KPADD"@ {
        Some(Code::NumpadAdd)
    } else if name == "NUMPADSUB"@ || name == "NUMSUB"@ || name == "KPSUB"@ || name == "NUMPADSUBTRACT"@ {
        Some(Code::NumpadSubtract)
    } else if name == "NUMPADMUL"@ || name == "NUMMUL"@ || name == "KPMUL"@ || name == "NUMPADMULTIPLY"@ {
        Some(Code::NumpadMultiply)
    } else if name == "NUMPADDIV"@ || name == "NUMDIV"@ || name == "KPDIV"@ || name == "NUMPADDIVIDE"@ {
        Some(Code::NumpadDivide)
    } else if name == "NUMPADDOT"@ || name == "NUMDOT"@ || name == "KPDOT"@ || name == "NUMPADDECIMAL"@ {
        Some(Code::NumpadDecimal)
    } else if name == "NUMPADENTER"@ || name == "KPENTER"@ {
        Some(Code::NumpadEnter)
    } else {
        None
    }
}

fn find_pad(name: &str) -> (r: Option<Code>)
    ensures
        r == pad_named(name@),
{
    if text::same(name, "NUMPAD0") || text::same(name, "NUM0") || text::same(name, "KP0") {
        Some(Code::Numpad0)
    } else if text::same(name, "NUMPAD1") || text::same(name, "NUM1") || text::same(name, "KP1") {
        Some(Code::Numpad1)
    } else if text::same(name, "NUMPAD2") || text::same(name, "NUM2") || text::same(name, "KP2") {
        Some(Code::Numpad2)
    } else if text::same(name, "NUMPAD3") || text::same(name, "NUM3") || text::same(name, "KP3") {
        Some(Code::Numpad3)
    } else if text::same(name, "NUMPAD4") || text::same(name, "NUM4") || text::same(name, "KP4") {
        Some(Code::Numpad4)
    } else if text::same(name, "NUMPAD5") || text::same(name, "NUM5") || text::same(name, "KP5") {
        Some(Code::Numpad5)
    } else if text::same(name, "NUMPAD6") || text::same(name, "NUM6") || text::same(name, "KP6") {
        Some(Code::Numpad6)
    } else if text::same(name, "NUMPAD7") || text::same(name, "NUM7") || text::same(name, "KP7") {
        Some(Code::Numpad7)
    } else if text::same(name, "NUMPAD8") || text::same(name, "NUM8") || text::same(name, "KP8") {
        Some(Code::Numpad8)
    } else if text::same(name, "NUMPAD9") || text::same(name, "NUM9") || text::same(name, "KP9") {
        Some(Code::Numpad9)
    } else if text::same(name, "NUMPADADD") || text::same(name, "NUMADD") || text::same(name, "KPADD") {
        Some(Code::NumpadAdd)
    } else if text::same(name, "NUMPADSUB") || text::same(name, "NUMSUB") || text::same(name, "KPSUB") || text::same(name, "NUMPADSUBTRACT") {
        Some(Code::NumpadSubtract)
    } else if text::same(name, "NUMPADMUL") || text::same(name, "NUMMUL") || text::same(name, "KPMUL") || text::same(name, "NUMPADMULTIPLY") {
        Some(Code::NumpadMultiply)
    } else if text::same(name, "NUMPADDIV") || text::same(name, "NUMDIV") || text::same(name, "KPDIV") || text::same(name, "NUMPADDIVIDE") {
        Some(Code::NumpadDivide)
    } else if text::same(name, "NUMPADDOT") || text::same(name, "NUMDOT") || text::same(name, "KPDOT") || text::same(name, "NUMPADDECIMAL") {
        Some(Code::NumpadDecimal)
    } else if text::same(name, "NUMPADENTER") || text::same(name, "KPENTER") {
        Some(Code::NumpadEnter)
    } else {
        None
    }
}

/// The key of a name in capitals.
pub open spec fn key_named(name: Seq<char>) -> Option<Code> {
    if letter_named(name) is Some {
        letter_named(name)
    } else if digit_named(name) is Some {
        digit_named(name)
    } else if function_named(name) is Some {
        function_named(name)
    } else if plain_named(name) is Some {
        plain_named(name)
    } else {
        pad_named(name)
    }
}

/// The key of a name, in whatever case it is written.
pub fn parse_key_code(s: &str) -> (r: Option<Code>)
    ensures
        r == key_named(text::uppercase(s@)),
{
    let upper = s.to_uppercase();
    let name = upper.as_str();
    if let Some(c) = find_letter(name) {
        return Some(c);
    }
    if let Some(c) = find_digit(name) {
        return Some(c);
    }
    if let Some(c) = find_function(name) {
        return Some(c);
    }
    if let Some(c) = find_plain(name) {
        return Some(c);
    }
    find_pad(name)
}

// ---- names that are written ------------------------------------------------------------------

/// The name of a key.
pub open spec fn code_name(code: Code) -> Seq<char> {
    match code {
        Code::KeyA => "A"@,
        Code::KeyB => "B"@,
        Code::KeyC => "C"@,
        Code::KeyD => "D"@,
        Code::KeyE => "E"@,
        Code::KeyF => "F"@,
        Code::KeyG => "G"@,
        Code::KeyH => "H"@,
        Code::KeyI => "I"@,
        Code::KeyJ => "J"@,
        Code::KeyK => "K"@,
        Code::KeyL => "L"@,
        Code::KeyM => "M"@,
        Code::KeyN => "N"@,
        Code::KeyO => "O"@,
        Code::KeyP => "P"@,
        Code::KeyQ => "Q"@,
        Code::KeyR => "R"@,
        Code::KeyS => "S"@,
        Code::KeyT => "T"@,
        Code::KeyU => "U"@,
        Code::KeyV => "V"@,
        Code::KeyW => "W"@,
        Code::KeyX => "X"@,
        Code::KeyY => "Y"@,
        Code::KeyZ => "Z"@,
        Code::Digit0 => "0"@,
        Code::Digit1 => "1"@,
        Code::Digit2 => "2"@,
        Code::Digit3 => "3"@,
        Code::Digit4 => "4"@,
        Code::Digit5 => "5"@,
        Code::Digit6 => "6"@,
        Code::Digit7 => "7"@,
        Code::Digit8 => "8"@,
        Code::Digit9 => "9"@,
        Code::F1 => "F1"@,
        Code::F2 => "F2"@,
        Code::F3 => "F3"@,
        Code::F4 => "F4"@,
        Code::F5 => "F5"@,
        Code::F6 => "F6"@,
        Code::F7 => "F7"@,
        Code::F8 => "F8"@,
        Code::F9 => "F9"@,
        Code::F10 => "F10"@,
        Code::F11 => "F11"@,
        Code::F12 => "F12"@,
        Code::Space => "Space"@,
        Code::Enter => "Enter"@,
        Code::Tab => "Tab"@,
        Code::Escape => "Esc"@,
        Code::Backspace => "Backspace"@,
        Code::Delete => "Delete"@,
        Code::Insert => "Insert"@,
        Code::Home => "Home"@,
        Code::End => "End"@,
        Code::PageUp => "PageUp"@,
        Code::PageDown => "PageDown"@,
        Code::ArrowUp => "Up"@,
        Code::ArrowDown => "Down"@,
        Code::ArrowLeft => "Left"@,
        Code::ArrowRight => "Right"@,
        Code::PrintScreen => "PrintScreen"@,
        Code::Pause => "Pause"@,
        Code::ScrollLock => "ScrollLock"@,
        Code::Numpad0 => "Numpad0"@,
        Code::Numpad1 => "Numpad1"@,
        Code::Numpad2 => "Numpad2"@,
        Code::Numpad3 => "Numpad3"@,
        Code::Numpad4 => "Numpad4"@,
        Code::Numpad5 => "Numpad5"@,
        Code::Numpad6 => "Numpad6"@,
        Code::Numpad7 => "Numpad7"@,
        Code::Numpad8 => "Numpad8"@,
        Code::Numpad9 => "Numpad9"@,
        Code::NumpadAdd => "NumpadAdd"@,
        Code::NumpadSubtract => "NumpadSubtract"@,
        Code::NumpadMultiply => "NumpadMultiply"@,
        Code::NumpadDivide => "NumpadDivide"@,
        Code::NumpadDecimal => "NumpadDecimal"@,
        Code::NumpadEnter => "NumpadEnter"@,
        _ => "?"@,
    }
}

/// The key has a name of its own.
pub open spec fn has_name(code: Code) -> bool {
    match code {
        Code::F13 | Code::F14 | Code::F15 | Code::F16 | Code::F17 | Code::F18 | Code::F19 | Code::F20 | Code::F21 | Code::F22 | Code::F23 | Code::F24 => false,
        _ => true,
    }
}

/// The name of a key. The function keys above the twelfth have none.
pub fn format_code(code: Code) -> (r: &'static str)
    ensures
        r@ == code_name(code),
{
    match code {
        Code::KeyA => "A",
        Code::KeyB => "B",
        Code::KeyC => "C",
        Code::KeyD => "D",
        Code::KeyE => "E",
        Code::KeyF => "F",
        Code::KeyG => "G",
        Code::KeyH => "H",
        Code::KeyI => "I",
        Code::KeyJ => "J",
        Code::KeyK => "K",
        Code::KeyL => "L",
        Code::KeyM => "M",
        Code::KeyN => "N",
        Code::KeyO => "O",
        Code::KeyP => "P",
        Code::KeyQ => "Q",
        Code::KeyR => "R",
        Code::KeyS => "S",
        Code::KeyT => "T",
        Code::KeyU => "U",
        Code::KeyV => "V",
        Code::KeyW => "W",
        Code::KeyX => "X",
        Code::KeyY => "Y",
        Code::KeyZ => "Z",
        Code::Digit0 => "0",
        Code::Digit1 => "1",
        Code::Digit2 => "2",
        Code::Digit3 => "3",
        Code::Digit4 => "4",
        Code::Digit5 => "5",
        Code::Digit6 => "6",
        Code::Digit7 => "7",
        Code::Digit8 => "8",
        Code::Digit9 => "9",
        Code::F1 => "F1",
        Code::F2 => "F2",
        Code::F3 => "F3",
        Code::F4 => "F4",
        Code::F5 => "F5",
        Code::F6 => "F6",
        Code::F7 => "F7",
        Code::F8 => "F8",
        Code::F9 => "F9",
        Code::F10 => "F10",
        Code::F11 => "F11",
        Code::F12 => "F12",
        Code::Space => "Space",
        Code::Enter => "Enter",
        Code::Tab => "Tab",
        Code::Escape => "Esc",
        Code::Backspace => "Backspace",
        Code::Delete => "Delete",
        Code::Insert => "Insert",
        Code::Home => "Home",
        Code::End => "End",
        Code::PageUp => "PageUp",
        Code::PageDown => "PageDown",
        Code::ArrowUp => "Up",
        Code::ArrowDown => "Down",
        Code::ArrowLeft => "Left",
        Code::ArrowRight => "Right",
        Code::PrintScreen => "PrintScreen",
        Code::Pause => "Pause",
        Code::ScrollLock => "ScrollLock",
        Code::Numpad0 => "Numpad0",
        Code::Numpad1 => "Numpad1",
        Code::Numpad2 => "Numpad2",
        Code::Numpad3 => "Numpad3",
        Code::Numpad4 => "Numpad4",
        Code::Numpad5 => "Numpad5",
        Code::Numpad6 => "Numpad6",
        Code::Numpad7 => "Numpad7",
        Code::Numpad8 => "Numpad8",
        Code::Numpad9 => "Numpad9",
        Code::NumpadAdd => "NumpadAdd",
        Code::NumpadSubtract => "NumpadSubtract",
        Code::NumpadMultiply => "NumpadMultiply",
        Code::NumpadDivide => "NumpadDivide",
        Code::NumpadDecimal => "NumpadDecimal",
        Code::NumpadEnter => "NumpadEnter",
        _ => "?",
    }
}

// ---- virtual keys -----------------------------------------------------------------------------

/// The virtual key of a key. The two enter keys share one.
pub open spec fn vk_of(code: Code) -> u32 {
    match code {
        Code::KeyA => 0x41,
        Code::KeyB => 0x42,
        Code::KeyC => 0x43,
        Code::KeyD => 0x44,
        Code::KeyE => 0x45,
        Code::KeyF => 0x46,
        Code::KeyG => 0x47,
        Code::KeyH => 0x48,
        Code::KeyI => 0x49,
        Code::KeyJ => 0x4a,
        Code::KeyK => 0x4b,
        Code::KeyL => 0x4c,
        Code::KeyM => 0x4d,
        Code::KeyN => 0x4e,
        Code::KeyO => 0x4f,
        Code::KeyP => 0x50,
        Code::KeyQ => 0x51,
        Code::KeyR => 0x52,
        Code::KeyS => 0x53,
        Code::KeyT => 0x54,
        Code::KeyU => 0x55,
        Code::KeyV => 0x56,
        Code::KeyW => 0x57,
        Code::KeyX => 0x58,
        Code::KeyY => 0x59,
        Code::KeyZ => 0x5a,
        Code::Digit0 => 0x30,
        Code::Digit1 => 0x31,
        Code::Digit2 => 0x32,
        Code::Digit3 => 0x33,
        Code::Digit4 => 0x34,
        Code::Digit5 => 0x35,
        Code::Digit6 => 0x36,
        Code::Digit7 => 0x37,
        Code::Digit8 => 0x38,
        Code::Digit9 => 0x39,
        Code::F1 => 0x70,
        Code::F2 => 0x71,
        Code::F3 => 0x72,
        Code::F4 => 0x73,
        Code::F5 => 0x74,
        Code::F6 => 0x75,
        Code::F7 => 0x76,
        Code::F8 => 0x77,
        Code::F9 => 0x78,
        Code::F10 => 0x79,
        Code::F11 => 0x7a,
        Code::F12 => 0x7b,
        Code::F13 => 0x7c,
        Code::F14 => 0x7d,
        Code::F15 => 0x7e,
        Code::F16 => 0x7f,
        Code::F17 => 0x80,
        Code::F18 => 0x81,
        Code::F19 => 0x82,
        Code::F20 => 0x83,
        Code::F21 => 0x84,
        Code::F22 => 0x85,
        Code::F23 => 0x86,
        Code::F24 => 0x87,
        Code::Space => 0x20,
        Code::Enter => 0x0d,
        Code::Tab => 0x09,
        Code::Escape => 0x1b,
        Code::Backspace => 0x08,
        Code::Delete => 0x2e,
        Code::Insert => 0x2d,
        Code::Home => 0x24,
        Code::End => 0x23,
        Code::PageUp => 0x21,
        Code::PageDown => 0x22,
        Code::ArrowUp => 0x26,
        Code::ArrowDown => 0x28,
        Code::ArrowLeft => 0x25,
        Code::ArrowRight => 0x27,
        Code::PrintScreen => 0x2c,
        Code::Pause => 0x13,
        Code::ScrollLock => 0x91,
        Code::Numpad0 => 0x60,
        Code::Numpad1 => 0x61,
        Code::Numpad2 => 0x62,
        Code::Numpad3 => 0x63,
        Code::Numpad4 => 0x64,
        Code::Numpad5 => 0x65,
        Code::Numpad6 => 0x66,
        Code::Numpad7 => 0x67,
        Code::Numpad8 => 0x68,
        Code::Numpad9 => 0x69,
        Code::NumpadAdd => 0x6b,
        Code::NumpadSubtract => 0x6d,
        Code::NumpadMultiply => 0x6a,
        Code::NumpadDivide => 0x6f,
        Code::NumpadDecimal => 0x6e,
        Code::NumpadEnter => 0x0d,
    }
}

/// The virtual key of a key.
pub fn code_to_vk(code: Code) -> (vk: u32)
    ensures
        vk == vk_of(code),
{
    match code {
        Code::KeyA => 0x41,
        Code::KeyB => 0x42,
        Code::KeyC => 0x43,
        Code::KeyD => 0x44,
        Code::KeyE => 0x45,
        Code::KeyF => 0x46,
        Code::KeyG => 0x47,
        Code::KeyH => 0x48,
        Code::KeyI => 0x49,
        Code::KeyJ => 0x4a,
        Code::KeyK => 0x4b,
        Code::KeyL => 0x4c,
        Code::KeyM => 0x4d,
        Code::KeyN => 0x4e,
        Code::KeyO => 0x4f,
        Code::KeyP => 0x50,
        Code::KeyQ => 0x51,
        Code::KeyR => 0x52,
        Code::KeyS => 0x53,
        Code::KeyT => 0x54,
        Code::KeyU => 0x55,
        Code::KeyV => 0x56,
        Code::KeyW => 0x57,
        Code::KeyX => 0x58,
        Code::KeyY => 0x59,
        Code::KeyZ => 0x5a,
        Code::Digit0 => 0x30,
        Code::Digit1 => 0x31,
        Code::Digit2 => 0x32,
        Code::Digit3 => 0x33,
        Code::Digit4 => 0x34,
        Code::Digit5 => 0x35,
        Code::Digit6 => 0x36,
        Code::Digit7 => 0x37,
        Code::Digit8 => 0x38,
        Code::Digit9 => 0x39,
        Code::F1 => 0x70,
        Code::F2 => 0x71,
        Code::F3 => 0x72,
        Code::F4 => 0x73,
        Code::F5 => 0x74,
        Code::F6 => 0x75,
        Code::F7 => 0x76,
        Code::F8 => 0x77,
        Code::F9 => 0x78,
        Code::F10 => 0x79,
        Code::F11 => 0x7a,
        Code::F12 => 0x7b,
        Code::F13 => 0x7c,
        Code::F14 => 0x7d,
        Code::F15 => 0x7e,
        Code::F16 => 0x7f,
        Code::F17 => 0x80,
        Code::F18 => 0x81,
        Code::F19 => 0x82,
        Code::F20 => 0x83,
        Code::F21 => 0x84,
        Code::F22 => 0x85,
        Code::F23 => 0x86,
        Code::F24 => 0x87,
        Code::Space => 0x20,
        Code::Enter => 0x0d,
        Code::Tab => 0x09,
        Code::Escape => 0x1b,
        Code::Backspace => 0x08,
        Code::Delete => 0x2e,
        Code::Insert => 0x2d,
        Code::Home => 0x24,
        Code::End => 0x23,
        Code::PageUp => 0x21,
        Code::PageDown => 0x22,
        Code::ArrowUp => 0x26,
        Code::ArrowDown => 0x28,
        Code::ArrowLeft => 0x25,
        Code::ArrowRight => 0x27,
        Code::PrintScreen => 0x2c,
        Code::Pause => 0x13,
        Code::ScrollLock => 0x91,
        Code::Numpad0 => 0x60,
        Code::Numpad1 => 0x61,
        Code::Numpad2 => 0x62,
        Code::Numpad3 => 0x63,
        Code::Numpad4 => 0x64,
        Code::Numpad5 => 0x65,
        Code::Numpad6 => 0x66,
        Code::Numpad7 => 0x67,
        Code::Numpad8 => 0x68,
        Code::Numpad9 => 0x69,
        Code::NumpadAdd => 0x6b,
        Code::NumpadSubtract => 0x6d,
        Code::NumpadMultiply => 0x6a,
        Code::NumpadDivide => 0x6f,
        Code::NumpadDecimal => 0x6e,
        Code::NumpadEnter => 0x0d,
    }
}

/// No two keys share a virtual key but the two enter keys.
pub proof fn lemma_vk_tells_keys_apart(a: Code, b: Code)
    requires
        vk_of(a) == vk_of(b),
    ensures
        a == b || (a is Enter || a is NumpadEnter) && (b is Enter || b is NumpadEnter),
{
}

// ---- laws ---------------------------------------------------------------------------------------

/// The text is made of ASCII letters and digits.
pub open spec fn is_word(s: Seq<char>) -> bool {
    s.len() > 0 && forall|i: int| 0 <= i < s.len() ==> text::ascii_alphanumeric(#[trigger] s[i])
}

/// A written name is a word, and reads as the key.
spec fn reads_back(code: Code) -> bool {
    is_word(code_name(code)) && key_named(text::uppercase(code_name(code))) == Some(code)
}

#[verifier::rlimit(50)]
#[verifier::spinoff_prover]
proof fn lemma_letter_reads_back(code: Code)
    requires
        code is KeyA || code is KeyB || code is KeyC || code is KeyD || code is KeyE || code is KeyF || code is KeyG || code is KeyH || code is KeyI || code is KeyJ || code is KeyK || code is KeyL || code is KeyM || code is KeyN || code is KeyO || code is KeyP || code is KeyQ || code is KeyR || code is KeyS || code is KeyT || code is KeyU || code is KeyV || code is KeyW || code is KeyX || code is KeyY || code is KeyZ,
        has_name(code),
    ensures
        reads_back(code),
{
    reveal_strlit("A");
    reveal_strlit("B");
    reveal_strlit("C");
    reveal_strlit("D");
    reveal_strlit("E");
    reveal_strlit("F");
    reveal_strlit("G");
    reveal_strlit("H");
    reveal_strlit("I");
    reveal_strlit("J");
    reveal_strlit("K");
    reveal_strlit("L");
    reveal_strlit("M");
    reveal_strlit("N");
    reveal_strlit("O");
    reveal_strlit("P");
    reveal_strlit("Q");
    reveal_strlit("R");
    reveal_strlit("S");
    reveal_strlit("T");
    reveal_strlit("U");
    reveal_strlit("V");
    reveal_strlit("W");
    reveal_strlit("X");
    reveal_strlit("Y");
    reveal_strlit("Z");
    let name = code_name(code);
    let upper = text::ascii_upper_all(name);
    assert(text::is_ascii(name));
    assert(text::uppercase(name) == upper);
    assert(is_word(name));
    match code {
        Code::KeyA => {
            assert(upper =~= "A"@);
            assert(upper[0] == 'A');
        },
        Code::KeyB => {
            assert(upper =~= "B"@);
            assert(upper[0] == 'B');
        },
        Code::KeyC => {
            assert(upper =~= "C"@);
            assert(upper[0] == 'C');
        },
        Code::KeyD => {
            assert(upper =~= "D"@);
            assert(upper[0] == 'D');
        },
        Code::KeyE => {
            assert(upper =~= "E"@);
            assert(upper[0] == 'E');
        },
        Code::KeyF => {
            assert(upper =~= "F"@);
            assert(upper[0] == 'F');
        },
        Code::KeyG => {
            assert(upper =~= "G"@);
            assert(upper[0] == 'G');
        },
        Code::KeyH => {
            assert(upper =~= "H"@);
            assert(upper[0] == 'H');
        },
        Code::KeyI => {
            assert(upper =~= "I"@);
            assert(upper[0] == 'I');
        },
        Code::KeyJ => {
            assert(upper =~= "J"@);
            assert(upper[0] == 'J');
        },
        Code::KeyK => {
            assert(upper =~= "K"@);
            assert(upper[0] == 'K');
        },
        Code::KeyL => {
            assert(upper =~= "L"@);
            assert(upper[0] == 'L');
        },
        Code::KeyM => {
            assert(upper =~= "M"@);
            assert(upper[0] == 'M');
        },
        Code::KeyN => {
            assert(upper =~= "N"@);
            assert(upper[0] == 'N');
        },
        Code::KeyO => {
            assert(upper =~= "O"@);
            assert(upper[0] == 'O');
        },
        Code::KeyP => {
            assert(upper =~= "P"@);
            assert(upper[0] == 'P');
        },
        Code::KeyQ => {
            assert(upper =~= "Q"@);
            assert(upper[0] == 'Q');
        },
        Code::KeyR => {
            assert(upper =~= "R"@);
            assert(upper[0] == 'R');
        },
        Code::KeyS => {
            assert(upper =~= "S"@);
            assert(upper[0] == 'S');
        },
        Code::KeyT => {
            assert(upper =~= "T"@);
            assert(upper[0] == 'T');
        },
        Code::KeyU => {
            assert(upper =~= "U"@);
            assert(upper[0] == 'U');
        },
        Code::KeyV => {
            assert(upper =~= "V"@);
            assert(upper[0] == 'V');
        },
        Code::KeyW => {
            assert(upper =~= "W"@);
            assert(upper[0] == 'W');
        },
        Code::KeyX => {
            assert(upper =~= "X"@);
            assert(upper[0] == 'X');
        },
        Code::KeyY => {
            assert(upper =~= "Y"@);
            assert(upper[0] == 'Y');
        },
        Code::KeyZ => {
            assert(upper =~= "Z"@);
            assert(upper[0] == 'Z');
        },
        _ => {},
    }
}

#[verifier::rlimit(50)]
#[verifier::spinoff_prover]
proof fn lemma_digit_reads_back(code: Code)
    requires
        code is Digit0 || code is Digit1 || code is Digit2 || code is Digit3 || code is Digit4 || code is Digit5 || code is Digit6 || code is Digit7 || code is Digit8 || code is Digit9,
        has_name(code),
    ensures
        reads_back(code),
{
    reveal_strlit("A");
    reveal_strlit("B");
    reveal_strlit("C");
    reveal_strlit("D");
    reveal_strlit("E");
    reveal_strlit("F");
    reveal_strlit("G");
    reveal_strlit("H");
    reveal_strlit("I");
    reveal_strlit("J");
    reveal_strlit("K");
    reveal_strlit("L");
    reveal_strlit("M");
    reveal_strlit("N");
    reveal_strlit("O");
    reveal_strlit("P");
    reveal_strlit("Q");
    reveal_strlit("R");
    reveal_strlit("S");
    reveal_strlit("T");
    reveal_strlit("U");
    reveal_strlit("V");
    reveal_strlit("W");
    reveal_strlit("X");
    reveal_strlit("Y");
    reveal_strlit("Z");
    reveal_strlit("0");
    reveal_strlit("1");
    reveal_strlit("2");
    reveal_strlit("3");
    reveal_strlit("4");
    reveal_strlit("5");
    reveal_strlit("6");
    reveal_strlit("7");
    reveal_strlit("8");
    reveal_strlit("9");
    let name = code_name(code);
    let upper = text::ascii_upper_all(name);
    assert(text::is_ascii(name));
    assert(text::uppercase(name) == upper);
    assert(is_word(name));
    match code {
        Code::Digit0 => {
            assert(upper =~= "0"@);
            assert(upper[0] == '0');
        },
        Code::Digit1 => {
            assert(upper =~= "1"@);
            assert(upper[0] == '1');
        },
        Code::Digit2 => {
            assert(upper =~= "2"@);
            assert(upper[0] == '2');
        },
        Code::Digit3 => {
            assert(upper =~= "3"@);
            assert(upper[0] == '3');
        },
        Code::Digit4 => {
            assert(upper =~= "4"@);
            assert(upper[0] == '4');
        },
        Code::Digit5 => {
            assert(upper =~= "5"@);
            assert(upper[0] == '5');
        },
        Code::Digit6 => {
            assert(upper =~= "6"@);
            assert(upper[0] == '6');
        },
        Code::Digit7 => {
            assert(upper =~= "7"@);
            assert(upper[0] == '7');
        },
        Code::Digit8 => {
            assert(upper =~= "8"@);
            assert(upper[0] == '8');
        },
        Code::Digit9 => {
            assert(upper =~= "9"@);
            assert(upper[0] == '9');
        },
        _ => {},
    }
}

#[verifier::rlimit(50)]
#[verifier::spinoff_prover]
proof fn lemma_function_reads_back(code: Code)
    requires
        code is F1 || code is F2 || code is F3 || code is F4 || code is F5 || code is F6 || code is F7 || code is F8 || code is F9 || code is F10 || code is F11 || code is F12 || code is F13 || code is F14 || code is F15 || code is F16 || code is F17 || code is F18 || code is F19 || code is F20 || code is F21 || code is F22 || code is F23 || code is F24,
        has_name(code),
    ensures
        reads_back(code),
{
    reveal_strlit("A");
    reveal_strlit("B");
    reveal_strlit("C");
    reveal_strlit("D");
    reveal_strlit("E");
    reveal_strlit("F");
    reveal_strlit("G");
    reveal_strlit("H");
    reveal_strlit("I");
    reveal_strlit("J");
    reveal_strlit("K");
    reveal_strlit("L");
    reveal_strlit("M");
    reveal_strlit("N");
    reveal_strlit("O");
    reveal_strlit("P");
    reveal_strlit("Q");
    reveal_strlit("R");
    reveal_strlit("S");
    reveal_strlit("T");
    reveal_strlit("U");
    reveal_strlit("V");
    reveal_strlit("W");
    reveal_strlit("X");
    reveal_strlit("Y");
    reveal_strlit("Z");
    reveal_strlit("0");
    reveal_strlit("1");
    reveal_strlit("2");
    reveal_strlit("3");
    reveal_strlit("4");
    reveal_strlit("5");
    reveal_strlit("6");
    reveal_strlit("7");
    reveal_strlit("8");
    reveal_strlit("9");
    reveal_strlit("F1");
    reveal_strlit("F2");
    reveal_strlit("F3");
    reveal_strlit("F4");
    reveal_strlit("F5");
    reveal_strlit("F6");
    reveal_strlit("F7");
    reveal_strlit("F8");
    reveal_strlit("F9");
    reveal_strlit("F10");
    reveal_strlit("F11");
    reveal_strlit("F12");
    reveal_strlit("F13");
    reveal_strlit("F14");
    reveal_strlit("F15");
    reveal_strlit("F16");
    reveal_strlit("F17");
    reveal_strlit("F18");
    reveal_strlit("F19");
    reveal_strlit("F20");
    reveal_strlit("F21");
    reveal_strlit("F22");
    reveal_strlit("F23");
    reveal_strlit("F24");
    let name = code_name(code);
    let upper = text::ascii_upper_all(name);
    assert(text::is_ascii(name));
    assert(text::uppercase(name) == upper);
    assert(is_word(name));
    match code {
        Code::F1 => {
            assert(upper =~= "F1"@);
            assert(upper[0] == 'F' && upper[1] == '1');
        },
        Code::F2 => {
            assert(upper =~= "F2"@);
            assert(upper[0] == 'F' && upper[1] == '2');
        },
        Code::F3 => {
            assert(upper =~= "F3"@);
            assert(upper[0] == 'F' && upper[1] == '3');
        },
        Code::F4 => {
            assert(upper =~= "F4"@);
            assert(upper[0] == 'F' && upper[1] == '4');
        },
        Code::F5 => {
            assert(upper =~= "F5"@);
            assert(upper[0] == 'F' && upper[1] == '5');
        },
        Code::F6 => {
            assert(upper =~= "F6"@);
            assert(upper[0] == 'F' && upper[1] == '6');
        },
        Code::F7 => {
            assert(upper =~= "F7"@);
            assert(upper[0] == 'F' && upper[1] == '7');
        },
        Code::F8 => {
            assert(upper =~= "F8"@);
            assert(upper[0] == 'F' && upper[1] == '8');
        },
        Code::F9 => {
            assert(upper =~= "F9"@);
            assert(upper[0] == 'F' && upper[1] == '9');
        },
        Code::F10 => {
            assert(upper =~= "F10"@);
            assert(upper[0] == 'F' && upper[1] == '1' && upper[2] == '0');
        },
        Code::F11 => {
            assert(upper =~= "F11"@);
            assert(upper[0] == 'F' && upper[1] == '1' && upper[2] == '1');
        },
        Code::F12 => {
            assert(upper =~= "F12"@);
            assert(upper[0] == 'F' && upper[1] == '1' && upper[2] == '2');
        },
        _ => {},
    }
}

#[verifier::rlimit(50)]
#[verifier::spinoff_prover]
proof fn lemma_plain_reads_back(code: Code)
    requires
        code is Space || code is Enter || code is Tab || code is Escape || code is Backspace || code is Delete || code is Insert || code is Home || code is End || code is PageUp || code is PageDown || code is ArrowUp || code is ArrowDown || code is ArrowLeft || code is ArrowRight || code is PrintScreen || code is Pause || code is ScrollLock,
        has_name(code),
    ensures
        reads_back(code),
{
    reveal_strlit("A");
    reveal_strlit("B");
    reveal_strlit("C");
    reveal_strlit("D");
    reveal_strlit("E");
    reveal_strlit("F");
    reveal_strlit("G");
    reveal_strlit("H");
    reveal_strlit("I");
    reveal_strlit("J");
    reveal_strlit("K");
    reveal_strlit("L");
    reveal_strlit("M");
    reveal_strlit("N");
    reveal_strlit("O");
    reveal_strlit("P");
    reveal_strlit("Q");
    reveal_strlit("R");
    reveal_strlit("S");
    reveal_strlit("T");
    reveal_strlit("U");
    reveal_strlit("V");
    reveal_strlit("W");
    reveal_strlit("X");
    reveal_strlit("Y");
    reveal_strlit("Z");
    reveal_strlit("0");
    reveal_strlit("1");
    reveal_strlit("2");
    reveal_strlit("3");
    reveal_strlit("4");
    reveal_strlit("5");
    reveal_strlit("6");
    reveal_strlit("7");
    reveal_strlit("8");
    reveal_strlit("9");
    reveal_strlit("F1");
    reveal_strlit("F2");
    reveal_strlit("F3");
    reveal_strlit("F4");
    reveal_strlit("F5");
    reveal_strlit("F6");
    reveal_strlit("F7");
    reveal_strlit("F8");
    reveal_strlit("F9");
    reveal_strlit("F10");
    reveal_strlit("F11");
    reveal_strlit("F12");
    reveal_strlit("F13");
    reveal_strlit("F14");
    reveal_strlit("F15");
    reveal_strlit("F16");
    reveal_strlit("F17");
    reveal_strlit("F18");
    reveal_strlit("F19");
    reveal_strlit("F20");
    reveal_strlit("F21");
    reveal_strlit("F22");
    reveal_strlit("F23");
    reveal_strlit("F24");
    reveal_strlit("SPACE");
    reveal_strlit("ENTER");
    reveal_strlit("RETURN");
    reveal_strlit("TAB");
    reveal_strlit("ESCAPE");
    reveal_strlit("ESC");
    reveal_strlit("BACKSPACE");
    reveal_strlit("DELETE");
    reveal_strlit("DEL");
    reveal_strlit("INSERT");
    reveal_strlit("INS");
    reveal_strlit("HOME");
    reveal_strlit("END");
    reveal_strlit("PAGEUP");
    reveal_strlit("PGUP");
    reveal_strlit("PAGEDOWN");
    reveal_strlit("PGDN");
    reveal_strlit("UP");
    reveal_strlit("DOWN");
    reveal_strlit("LEFT");
    reveal_strlit("RIGHT");
    reveal_strlit("PRINTSCREEN");
    reveal_strlit("PRTSC");
    reveal_strlit("PRINT");
    reveal_strlit("PAUSE");
    reveal_strlit("PAUSEBREAK");
    reveal_strlit("BREAK");
    reveal_strlit("SCROLLLOCK");
    reveal_strlit("SCROLL");
    reveal_strlit("Space");
    reveal_strlit("Enter");
    reveal_strlit("Tab");
    reveal_strlit("Esc");
    reveal_strlit("Backspace");
    reveal_strlit("Delete");
    reveal_strlit("Insert");
    reveal_strlit("Home");
    reveal_strlit("End");
    reveal_strlit("PageUp");
    reveal_strlit("PageDown");
    reveal_strlit("Up");
    reveal_strlit("Down");
    reveal_strlit("Left");
    reveal_strlit("Right");
    reveal_strlit("PrintScreen");
    reveal_strlit("Pause");
    reveal_strlit("ScrollLock");
    let name = code_name(code);
    let upper = text::ascii_upper_all(name);
    assert(text::is_ascii(name));
    assert(text::uppercase(name) == upper);
    assert(is_word(name));
    match code {
        Code::Space => {
            assert(upper =~= "SPACE"@);
            assert(upper[0] == 'S' && upper[1] == 'P' && upper[2] == 'A' && upper[3] == 'C' && upper[4] == 'E');
        },
        Code::Enter => {
            assert(upper =~= "ENTER"@);
            assert(upper[0] == 'E' && upper[1] == 'N' && upper[2] == 'T' && upper[3] == 'E' && upper[4] == 'R');
        },
        Code::Tab => {
            assert(upper =~= "TAB"@);
            assert(upper[0] == 'T' && upper[1] == 'A' && upper[2] == 'B');
        },
        Code::Escape => {
            assert(upper =~= "ESC"@);
            assert(upper[0] == 'E' && upper[1] == 'S' && upper[2] == 'C');
        },
        Code::Backspace => {
            assert(upper =~= "BACKSPACE"@);
            assert(upper[0] == 'B' && upper[1] == 'A' && upper[2] == 'C' && upper[3] == 'K' && upper[4] == 'S' && upper[5] == 'P' && upper[6] == 'A' && upper[7] == 'C' && upper[8] == 'E');
        },
        Code::Delete => {
            assert(upper =~= "DELETE"@);
            assert(upper[0] == 'D' && upper[1] == 'E' && upper[2] == 'L' && upper[3] == 'E' && upper[4] == 'T' && upper[5] == 'E');
        },
        Code::Insert => {
            assert(upper =~= "INSERT"@);
            assert(upper[0] == 'I' && upper[1] == 'N' && upper[2] == 'S' && upper[3] == 'E' && upper[4] == 'R' && upper[5] == 'T');
        },
        Code::Home => {
            assert(upper =~= "HOME"@);
            assert(upper[0] == 'H' && upper[1] == 'O' && upper[2] == 'M' && upper[3] == 'E');
        },
        Code::End => {
            assert(upper =~= "END"@);
            assert(upper[0] == 'E' && upper[1] == 'N' && upper[2] == 'D');
        },
        Code::PageUp => {
            assert(upper =~= "PAGEUP"@);
            assert(upper[0] == 'P' && upper[1] == 'A' && upper[2] == 'G' && upper[3] == 'E' && upper[4] == 'U' && upper[5] == 'P');
        },
        Code::PageDown => {
            assert(upper =~= "PAGEDOWN"@);
            assert(upper[0] == 'P' && upper[1] == 'A' && upper[2] == 'G' && upper[3] == 'E' && upper[4] == 'D' && upper[5] == 'O' && upper[6] == 'W' && upper[7] == 'N');
        },
        Code::ArrowUp => {
            assert(upper =~= "UP"@);
            assert(upper[0] == 'U' && upper[1] == 'P');
        },
        Code::ArrowDown => {
            assert(upper =~= "DOWN"@);
            assert(upper[0] == 'D' && upper[1] == 'O' && upper[2] == 'W' && upper[3] == 'N');
        },
        Code::ArrowLeft => {
            assert(upper =~= "LEFT"@);
            assert(upper[0] == 'L' && upper[1] == 'E' && upper[2] == 'F' && upper[3] == 'T');
        },
        Code::ArrowRight => {
            assert(upper =~= "RIGHT"@);
            assert(upper[0] == 'R' && upper[1] == 'I' && upper[2] == 'G' && upper[3] == 'H' && upper[4] == 'T');
        },
        Code::PrintScreen => {
            assert(upper =~= "PRINTSCREEN"@);
            assert(upper[0] == 'P' && upper[1] == 'R' && upper[2] == 'I' && upper[3] == 'N' && upper[4] == 'T' && upper[5] == 'S' && upper[6] == 'C' && upper[7] == 'R' && upper[8] == 'E' && upper[9] == 'E' && upper[10] == 'N');
        },
        Code::Pause => {
            assert(upper =~= "PAUSE"@);
            assert(upper[0] == 'P' && upper[1] == 'A' && upper[2] == 'U' && upper[3] == 'S' && upper[4] == 'E');
        },
        Code::ScrollLock => {
            assert(upper =~= "SCROLLLOCK"@);
            assert(upper[0] == 'S' && upper[1] == 'C' && upper[2] == 'R' && upper[3] == 'O' && upper[4] == 'L' && upper[5] == 'L' && upper[6] == 'L' && upper[7] == 'O' && upper[8] == 'C' && upper[9] == 'K');
        },
        _ => {},
    }
}

#[verifier::rlimit(50)]
#[verifier::spinoff_prover]
proof fn lemma_pad_reads_back(code: Code)
    requires
        code is Numpad0 || code is Numpad1 || code is Numpad2 || code is Numpad3 || code is Numpad4 || code is Numpad5 || code is Numpad6 || code is Numpad7 || code is Numpad8 || code is Numpad9 || code is NumpadAdd || code is NumpadSubtract || code is NumpadMultiply || code is NumpadDivide || code is NumpadDecimal || code is NumpadEnter,
        has_name(code),
    ensures
        reads_back(code),
{
    reveal_strlit("A");
    reveal_strlit("B");
    reveal_strlit("C");
    reveal_strlit("D");
    reveal_strlit("E");
    reveal_strlit("F");
    reveal_strlit("G");
    reveal_strlit("H");
    reveal_strlit("I");
    reveal_strlit("J");
    reveal_strlit("K");
    reveal_strlit("L");
    reveal_strlit("M");
    reveal_strlit("N");
    reveal_strlit("O");
    reveal_strlit("P");
    reveal_strlit("Q");
    reveal_strlit("R");
    reveal_strlit("S");
    reveal_strlit("T");
    reveal_strlit("U");
    reveal_strlit("V");
    reveal_strlit("W");
    reveal_strlit("X");
    reveal_strlit("Y");
    reveal_strlit("Z");
    reveal_strlit("0");
    reveal_strlit("1");
    reveal_strlit("2");
    reveal_strlit("3");
    reveal_strlit("4");
    reveal_strlit("5");
    reveal_strlit("6");
    reveal_strlit("7");
    reveal_strlit("8");
    reveal_strlit("9");
    reveal_strlit("F1");
    reveal_strlit("F2");
    reveal_strlit("F3");
    reveal_strlit("F4");
    reveal_strlit("F5");
    reveal_strlit("F6");
    reveal_strlit("F7");
    reveal_strlit("F8");
    reveal_strlit("F9");
    reveal_strlit("F10");
    reveal_strlit("F11");
    reveal_strlit("F12");
    reveal_strlit("F13");
    reveal_strlit("F14");
    reveal_strlit("F15");
    reveal_strlit("F16");
    reveal_strlit("F17");
    reveal_strlit("F18");
    reveal_strlit("F19");
    reveal_strlit("F20");
    reveal_strlit("F21");
    reveal_strlit("F22");
    reveal_strlit("F23");
    reveal_strlit("F24");
    reveal_strlit("SPACE");
    reveal_strlit("ENTER");
    reveal_strlit("RETURN");
    reveal_strlit("TAB");
    reveal_strlit("ESCAPE");
    reveal_strlit("ESC");
    reveal_strlit("BACKSPACE");
    reveal_strlit("DELETE");
    reveal_strlit("DEL");
    reveal_strlit("INSERT");
    reveal_strlit("INS");
    reveal_strlit("HOME");
    reveal_strlit("END");
    reveal_strlit("PAGEUP");
    reveal_strlit("PGUP");
    reveal_strlit("PAGEDOWN");
    reveal_strlit("PGDN");
    reveal_strlit("UP");
    reveal_strlit("DOWN");
    reveal_strlit("LEFT");
    reveal_strlit("RIGHT");
    reveal_strlit("PRINTSCREEN");
    reveal_strlit("PRTSC");
    reveal_strlit("PRINT");
    reveal_strlit("PAUSE");
    reveal_strlit("PAUSEBREAK");
    reveal_strlit("BREAK");
    reveal_strlit("SCROLLLOCK");
    reveal_strlit("SCROLL");
    reveal_strlit("NUMPAD0");
    reveal_strlit("NUM0");
    reveal_strlit("KP0");
    reveal_strlit("NUMPAD1");
    reveal_strlit("NUM1");
    reveal_strlit("KP1");
    reveal_strlit("NUMPAD2");
    reveal_strlit("NUM2");
    reveal_strlit("KP2");
    reveal_strlit("NUMPAD3");
    reveal_strlit("NUM3");
    reveal_strlit("KP3");
    reveal_strlit("NUMPAD4");
    reveal_strlit("NUM4");
    reveal_strlit("KP4");
    reveal_strlit("NUMPAD5");
    reveal_strlit("NUM5");
    reveal_strlit("KP5");
    reveal_strlit("NUMPAD6");
    reveal_strlit("NUM6");
    reveal_strlit("KP6");
    reveal_strlit("NUMPAD7");
    reveal_strlit("NUM7");
    reveal_strlit("KP7");
    reveal_strlit("NUMPAD8");
    reveal_strlit("NUM8");
    reveal_strlit("KP8");
    reveal_strlit("NUMPAD9");
    reveal_strlit("NUM9");
    reveal_strlit("KP9");
    reveal_strlit("NUMPADADD");
    reveal_strlit("NUMADD");
    reveal_strlit("KPADD");
    reveal_strlit("NUMPADSUB");
    reveal_strlit("NUMSUB");
    reveal_strlit("KPSUB");
    reveal_strlit("NUMPADSUBTRACT");
    reveal_strlit("NUMPADMUL");
    reveal_strlit("NUMMUL");
    reveal_strlit("KPMUL");
    reveal_strlit("NUMPADMULTIPLY");
    reveal_strlit("NUMPADDIV");
    reveal_strlit("NUMDIV");
    reveal_strlit("KPDIV");
    reveal_strlit("NUMPADDIVIDE");
    reveal_strlit("NUMPADDOT");
    reveal_strlit("NUMDOT");
    reveal_strlit("KPDOT");
    reveal_strlit("NUMPADDECIMAL");
    reveal_strlit("NUMPADENTER");
    reveal_strlit("KPENTER");
    reveal_strlit("Numpad0");
    reveal_strlit("Numpad1");
    reveal_strlit("Numpad2");
    reveal_strlit("Numpad3");
    reveal_strlit("Numpad4");
    reveal_strlit("Numpad5");
    reveal_strlit("Numpad6");
    reveal_strlit("Numpad7");
    reveal_strlit("Numpad8");
    reveal_strlit("Numpad9");
    reveal_strlit("NumpadAdd");
    reveal_strlit("NumpadSubtract");
    reveal_strlit("NumpadMultiply");
    reveal_strlit("NumpadDivide");
    reveal_strlit("NumpadDecimal");
    reveal_strlit("NumpadEnter");
    let name = code_name(code);
    let upper = text::ascii_upper_all(name);
    assert(text::is_ascii(name));
    assert(text::uppercase(name) == upper);
    assert(is_word(name));
    match code {
        Code::Numpad0 => {
            assert(upper =~= "NUMPAD0"@);
            assert(upper[0] == 'N' && upper[1] == 'U' && upper[2] == 'M' && upper[3] == 'P' && upper[4] == 'A' && upper[5] == 'D' && upper[6] == '0');
        },
        Code::Numpad1 => {
            assert(upper =~= "NUMPAD1"@);
            assert(upper[0] == 'N' && upper[1] == 'U' && upper[2] == 'M' && upper[3] == 'P' && upper[4] == 'A' && upper[5] == 'D' && upper[6] == '1');
        },
        Code::Numpad2 => {
            assert(upper =~= "NUMPAD2"@);
            assert(upper[0] == 'N' && upper[1] == 'U' && upper[2] == 'M' && upper[3] == 'P' && upper[4] == 'A' && upper[5] == 'D' && upper[6] == '2');
        },
        Code::Numpad3 => {
            assert(upper =~= "NUMPAD3"@);
            assert(upper[0] == 'N' && upper[1] == 'U' && upper[2] == 'M' && upper[3] == 'P' && upper[4] == 'A' && upper[5] == 'D' && upper[6] == '3');
        },
        Code::Numpad4 => {
            assert(upper =~= "NUMPAD4"@);
            assert(upper[0] == 'N' && upper[1] == 'U' && upper[2] == 'M' && upper[3] == 'P' && upper[4] == 'A' && upper[5] == 'D' && upper[6] == '4');
        },
        Code::Numpad5 => {
            assert(upper =~= "NUMPAD5"@);
            assert(upper[0] == 'N' && upper[1] == 'U' && upper[2] == 'M' && upper[3] == 'P' && upper[4] == 'A' && upper[5] == 'D' && upper[6] == '5');
        },
        Code::Numpad6 => {
            assert(upper =~= "NUMPAD6"@);
            assert(upper[0] == 'N' && upper[1] == 'U' && upper[2] == 'M' && upper[3] == 'P' && upper[4] == 'A' && upper[5] == 'D' && upper[6] == '6');
        },
        Code::Numpad7 => {
            assert(upper =~= "NUMPAD7"@);
            assert(upper[0] == 'N' && upper[1] == 'U' && upper[2] == 'M' && upper[3] == 'P' && upper[4] == 'A' && upper[5] == 'D' && upper[6] == '7');
        },
        Code::Numpad8 => {
            assert(upper =~= "NUMPAD8"@);
            assert(upper[0] == 'N' && upper[1] == 'U' && upper[2] == 'M' && upper[3] == 'P' && upper[4] == 'A' && upper[5] == 'D' && upper[6] == '8');
        },
        Code::Numpad9 => {
            assert(upper =~= "NUMPAD9"@);
            assert(upper[0] == 'N' && upper[1] == 'U' && upper[2] == 'M' && upper[3] == 'P' && upper[4] == 'A' && upper[5] == 'D' && upper[6] == '9');
        },
        Code::NumpadAdd => {
            assert(upper =~= "NUMPADADD"@);
            assert(upper[0] == 'N' && upper[1] == 'U' && upper[2] == 'M' && upper[3] == 'P' && upper[4] == 'A' && upper[5] == 'D' && upper[6] == 'A' && upper[7] == 'D' && upper[8] == 'D');
        },
        Code::NumpadSubtract => {
            assert(upper =~= "NUMPADSUBTRACT"@);
            assert(upper[0] == 'N' && upper[1] == 'U' && upper[2] == 'M' && upper[3] == 'P' && upper[4] == 'A' && upper[5] == 'D' && upper[6] == 'S' && upper[7] == 'U' && upper[8] == 'B' && upper[9] == 'T' && upper[10] == 'R' && upper[11] == 'A' && upper[12] == 'C' && upper[13] == 'T');
        },
        Code::NumpadMultiply => {
            assert(upper =~= "NUMPADMULTIPLY"@);
            assert(upper[0] == 'N' && upper[1] == 'U' && upper[2] == 'M' && upper[3] == 'P' && upper[4] == 'A' && upper[5] == 'D' && upper[6] == 'M' && upper[7] == 'U' && upper[8] == 'L' && upper[9] == 'T' && upper[10] == 'I' && upper[11] == 'P' && upper[12] == 'L' && upper[13] == 'Y');
        },
        Code::NumpadDivide => {
            assert(upper =~= "NUMPADDIVIDE"@);
            assert(upper[0] == 'N' && upper[1] == 'U' && upper[2] == 'M' && upper[3] == 'P' && upper[4] == 'A' && upper[5] == 'D' && upper[6] == 'D' && upper[7] == 'I' && upper[8] == 'V' && upper[9] == 'I' && upper[10] == 'D' && upper[11] == 'E');
        },
        Code::NumpadDecimal => {
            assert(upper =~= "NUMPADDECIMAL"@);
            assert(upper[0] == 'N' && upper[1] == 'U' && upper[2] == 'M' && upper[3] == 'P' && upper[4] == 'A' && upper[5] == 'D' && upper[6] == 'D' && upper[7] == 'E' && upper[8] == 'C' && upper[9] == 'I' && upper[10] == 'M' && upper[11] == 'A' && upper[12] == 'L');
        },
        Code::NumpadEnter => {
            assert(upper =~= "NUMPADENTER"@);
            assert(upper[0] == 'N' && upper[1] == 'U' && upper[2] == 'M' && upper[3] == 'P' && upper[4] == 'A' && upper[5] == 'D' && upper[6] == 'E' && upper[7] == 'N' && upper[8] == 'T' && upper[9] == 'E' && upper[10] == 'R');
        },
        _ => {},
    }
}

/// A written name is a word, and reads as the key that it was written for.
pub proof fn lemma_name_reads_back(code: Code)
    requires
        has_name(code),
    ensures
        is_word(code_name(code)),
        key_named(text::uppercase(code_name(code))) == Some(code),
{
    match code {
        Code::KeyA | Code::KeyB | Code::KeyC | Code::KeyD | Code::KeyE | Code::KeyF | Code::KeyG | Code::KeyH | Code::KeyI | Code::KeyJ | Code::KeyK | Code::KeyL | Code::KeyM | Code::KeyN | Code::KeyO | Code::KeyP | Code::KeyQ | Code::KeyR | Code::KeyS | Code::KeyT | Code::KeyU | Code::KeyV | Code::KeyW | Code::KeyX | Code::KeyY | Code::KeyZ => {
            lemma_letter_reads_back(code);
        },
        Code::Digit0 | Code::Digit1 | Code::Digit2 | Code::Digit3 | Code::Digit4 | Code::Digit5 | Code::Digit6 | Code::Digit7 | Code::Digit8 | Code::Digit9 => {
            lemma_digit_reads_back(code);
        },
        Code::F1 | Code::F2 | Code::F3 | Code::F4 | Code::F5 | Code::F6 | Code::F7 | Code::F8 | Code::F9 | Code::F10 | Code::F11 | Code::F12 | Code::F13 | Code::F14 | Code::F15 | Code::F16 | Code::F17 | Code::F18 | Code::F19 | Code::F20 | Code::F21 | Code::F22 | Code::F23 | Code::F24 => {
            lemma_function_reads_back(code);
        },
        Code::Space | Code::Enter | Code::Tab | Code::Escape | Code::Backspace | Code::Delete | Code::Insert | Code::Home | Code::End | Code::PageUp | Code::PageDown | Code::ArrowUp | Code::ArrowDown | Code::ArrowLeft | Code::ArrowRight | Code::PrintScreen | Code::Pause | Code::ScrollLock => {
            lemma_plain_reads_back(code);
        },
        Code::Numpad0 | Code::Numpad1 | Code::Numpad2 | Code::Numpad3 | Code::Numpad4 | Code::Numpad5 | Code::Numpad6 | Code::Numpad7 | Code::Numpad8 | Code::Numpad9 | Code::NumpadAdd | Code::NumpadSubtract | Code::NumpadMultiply | Code::NumpadDivide | Code::NumpadDecimal | Code::NumpadEnter => {
            lemma_pad_reads_back(code);
        },
    }
}

/// No key has the name of a modifier.
#[verifier::rlimit(50)]
#[verifier::spinoff_prover]
pub proof fn lemma_no_key_is_a_modifier(name: Seq<char>)
    requires
        name == "CTRL"@ || name == "CONTROL"@ || name == "ALT"@ || name == "SHIFT"@ || name == "SUPER"@ || name == "WIN"@ || name == "META"@ || name == "CMD"@,
    ensures
        key_named(name) is None,
{
    reveal_strlit("CTRL");
    reveal_strlit("CONTROL");
    reveal_strlit("ALT");
    reveal_strlit("SHIFT");
    reveal_strlit("SUPER");
    reveal_strlit("WIN");
    reveal_strlit("META");
    reveal_strlit("CMD");
    reveal_strlit("A");
    reveal_strlit("B");
    reveal_strlit("C");
    reveal_strlit("D");
    reveal_strlit("E");
    reveal_strlit("F");
    reveal_strlit("G");
    reveal_strlit("H");
    reveal_strlit("I");
    reveal_strlit("J");
    reveal_strlit("K");
    reveal_strlit("L");
    reveal_strlit("M");
    reveal_strlit("N");
    reveal_strlit("O");
    reveal_strlit("P");
    reveal_strlit("Q");
    reveal_strlit("R");
    reveal_strlit("S");
    reveal_strlit("T");
    reveal_strlit("U");
    reveal_strlit("V");
    reveal_strlit("W");
    reveal_strlit("X");
    reveal_strlit("Y");
    reveal_strlit("Z");
    reveal_strlit("0");
    reveal_strlit("1");
    reveal_strlit("2");
    reveal_strlit("3");
    reveal_strlit("4");
    reveal_strlit("5");
    reveal_strlit("6");
    reveal_strlit("7");
    reveal_strlit("8");
    reveal_strlit("9");
    reveal_strlit("F1");
    reveal_strlit("F2");
    reveal_strlit("F3");
    reveal_strlit("F4");
    reveal_strlit("F5");
    reveal_strlit("F6");
    reveal_strlit("F7");
    reveal_strlit("F8");
    reveal_strlit("F9");
    reveal_strlit("F10");
    reveal_strlit("F11");
    reveal_strlit("F12");
    reveal_strlit("F13");
    reveal_strlit("F14");
    reveal_strlit("F15");
    reveal_strlit("F16");
    reveal_strlit("F17");
    reveal_strlit("F18");
    reveal_strlit("F19");
    reveal_strlit("F20");
    reveal_strlit("F21");
    reveal_strlit("F22");
    reveal_strlit("F23");
    reveal_strlit("F24");
    reveal_strlit("SPACE");
    reveal_strlit("ENTER");
    reveal_strlit("RETURN");
    reveal_strlit("TAB");
    reveal_strlit("ESCAPE");
    reveal_strlit("ESC");
    reveal_strlit("BACKSPACE");
    reveal_strlit("DELETE");
    reveal_strlit("DEL");
    reveal_strlit("INSERT");
    reveal_strlit("INS");
    reveal_strlit("HOME");
    reveal_strlit("END");
    reveal_strlit("PAGEUP");
    reveal_strlit("PGUP");
    reveal_strlit("PAGEDOWN");
    reveal_strlit("PGDN");
    reveal_strlit("UP");
    reveal_strlit("DOWN");
    reveal_strlit("LEFT");
    reveal_strlit("RIGHT");
    reveal_strlit("PRINTSCREEN");
    reveal_strlit("PRTSC");
    reveal_strlit("PRINT");
    reveal_strlit("PAUSE");
    reveal_strlit("PAUSEBREAK");
    reveal_strlit("BREAK");
    reveal_strlit("SCROLLLOCK");
    reveal_strlit("SCROLL");
    reveal_strlit("NUMPAD0");
    reveal_strlit("NUM0");
    reveal_strlit("KP0");
    reveal_strlit("NUMPAD1");
    reveal_strlit("NUM1");
    reveal_strlit("KP1");
    reveal_strlit("NUMPAD2");
    reveal_strlit("NUM2");
    reveal_strlit("KP2");
    reveal_strlit("NUMPAD3");
    reveal_strlit("NUM3");
    reveal_strlit("KP3");
    reveal_strlit("NUMPAD4");
    reveal_strlit("NUM4");
    reveal_strlit("KP4");
    reveal_strlit("NUMPAD5");
    reveal_strlit("NUM5");
    reveal_strlit("KP5");
    reveal_strlit("NUMPAD6");
    reveal_strlit("NUM6");
    reveal_strlit("KP6");
    reveal_strlit("NUMPAD7");
    reveal_strlit("NUM7");
    reveal_strlit("KP7");
    reveal_strlit("NUMPAD8");
    reveal_strlit("NUM8");
    reveal_strlit("KP8");
    reveal_strlit("NUMPAD9");
    reveal_strlit("NUM9");
    reveal_strlit("KP9");
    reveal_strlit("NUMPADADD");
    reveal_strlit("NUMADD");
    reveal_strlit("KPADD");
    reveal_strlit("NUMPADSUB");
    reveal_strlit("NUMSUB");
    reveal_strlit("KPSUB");
    reveal_strlit("NUMPADSUBTRACT");
    reveal_strlit("NUMPADMUL");
    reveal_strlit("NUMMUL");
    reveal_strlit("KPMUL");
    reveal_strlit("NUMPADMULTIPLY");
    reveal_strlit("NUMPADDIV");
    reveal_strlit("NUMDIV");
    reveal_strlit("KPDIV");
    reveal_strlit("NUMPADDIVIDE");
    reveal_strlit("NUMPADDOT");
    reveal_strlit("NUMDOT");
    reveal_strlit("KPDOT");
    reveal_strlit("NUMPADDECIMAL");
    reveal_strlit("NUMPADENTER");
    reveal_strlit("KPENTER");
    if name == "CTRL"@ {
        assert(name.len() == 4 && name[0] == 'C' && name[1] == 'T' && name[2] == 'R' && name[3] == 'L');
    } else if name == "CONTROL"@ {
        assert(name.len() == 7 && name[0] == 'C' && name[1] == 'O' && name[2] == 'N' && name[3] == 'T' && name[4] == 'R' && name[5] == 'O' && name[6] == 'L');
    } else if name == "ALT"@ {
        assert(name.len() == 3 && name[0] == 'A' && name[1] == 'L' && name[2] == 'T');
    } else if name == "SHIFT"@ {
        assert(name.len() == 5 && name[0] == 'S' && name[1] == 'H' && name[2] == 'I' && name[3] == 'F' && name[4] == 'T');
    } else if name == "SUPER"@ {
        assert(name.len() == 5 && name[0] == 'S' && name[1] == 'U' && name[2] == 'P' && name[3] == 'E' && name[4] == 'R');
    } else if name == "WIN"@ {
        assert(name.len() == 3 && name[0] == 'W' && name[1] == 'I' && name[2] == 'N');
    } else if name == "META"@ {
        assert(name.len() == 4 && name[0] == 'M' && name[1] == 'E' && name[2] == 'T' && name[3] == 'A');
    } else if name == "CMD"@ {
        assert(name.len() == 3 && name[0] == 'C' && name[1] == 'M' && name[2] == 'D');
    }
}

/// A letter is known by the virtual key of its own number, and every letter is a
/// key.
pub proof fn lemma_letters_are_their_own_keys(name: Seq<char>)
    ensures
        letter_named(name) matches Some(c) ==> name.len() == 1 && 'A' <= name[0] <= 'Z' && vk_of(c)
            == name[0] as u32,
        name.len() == 1 && 'A' <= name[0] <= 'Z' ==> letter_named(name) is Some,
{
    reveal_strlit("A");
    reveal_strlit("B");
    reveal_strlit("C");
    reveal_strlit("D");
    reveal_strlit("E");
    reveal_strlit("F");
    reveal_strlit("G");
    reveal_strlit("H");
    reveal_strlit("I");
    reveal_strlit("J");
    reveal_strlit("K");
    reveal_strlit("L");
    reveal_strlit("M");
    reveal_strlit("N");
    reveal_strlit("O");
    reveal_strlit("P");
    reveal_strlit("Q");
    reveal_strlit("R");
    reveal_strlit("S");
    reveal_strlit("T");
    reveal_strlit("U");
    reveal_strlit("V");
    reveal_strlit("W");
    reveal_strlit("X");
    reveal_strlit("Y");
    reveal_strlit("Z");
    if name.len() == 1 && name[0] == 'A' {
        assert(name =~= "A"@);
    }
    if name.len() == 1 && name[0] == 'B' {
        assert(name =~= "B"@);
    }
    if name.len() == 1 && name[0] == 'C' {
        assert(name =~= "C"@);
    }
    if name.len() == 1 && name[0] == 'D' {
        assert(name =~= "D"@);
    }
    if name.len() == 1 && name[0] == 'E' {
        assert(name =~= "E"@);
    }
    if name.len() == 1 && name[0] == 'F' {
        assert(name =~= "F"@);
    }
    if name.len() == 1 && name[0] == 'G' {
        assert(name =~= "G"@);
    }
    if name.len() == 1 && name[0] == 'H' {
        assert(name =~= "H"@);
    }
    if name.len() == 1 && name[0] == 'I' {
        assert(name =~= "I"@);
    }
    if name.len() == 1 && name[0] == 'J' {
        assert(name =~= "J"@);
    }
    if name.len() == 1 && name[0] == 'K' {
        assert(name =~= "K"@);
    }
    if name.len() == 1 && name[0] == 'L' {
        assert(name =~= "L"@);
    }
    if name.len() == 1 && name[0] == 'M' {
        assert(name =~= "M"@);
    }
    if name.len() == 1 && name[0] == 'N' {
        assert(name =~= "N"@);
    }
    if name.len() == 1 && name[0] == 'O' {
        assert(name =~= "O"@);
    }
    if name.len() == 1 && name[0] == 'P' {
        assert(name =~= "P"@);
    }
    if name.len() == 1 && name[0] == 'Q' {
        assert(name =~= "Q"@);
    }
    if name.len() == 1 && name[0] == 'R' {
        assert(name =~= "R"@);
    }
    if name.len() == 1 && name[0] == 'S' {
        assert(name =~= "S"@);
    }
    if name.len() == 1 && name[0] == 'T' {
        assert(name =~= "T"@);
    }
    if name.len() == 1 && name[0] == 'U' {
        assert(name =~= "U"@);
    }
    if name.len() == 1 && name[0] == 'V' {
        assert(name =~= "V"@);
    }
    if name.len() == 1 && name[0] == 'W' {
        assert(name =~= "W"@);
    }
    if name.len() == 1 && name[0] == 'X' {
        assert(name =~= "X"@);
    }
    if name.len() == 1 && name[0] == 'Y' {
        assert(name =~= "Y"@);
    }
    if name.len() == 1 && name[0] == 'Z' {
        assert(name =~= "Z"@);
    }
}

/// A digit is known by the virtual key of its own number, and every digit is a
/// key.
pub proof fn lemma_digits_are_their_own_keys(name: Seq<char>)
    ensures
        digit_named(name) matches Some(c) ==> name.len() == 1 && '0' <= name[0] <= '9' && vk_of(c)
            == name[0] as u32,
        name.len() == 1 && '0' <= name[0] <= '9' ==> digit_named(name) is Some,
{
    reveal_strlit("0");
    reveal_strlit("1");
    reveal_strlit("2");
    reveal_strlit("3");
    reveal_strlit("4");
    reveal_strlit("5");
    reveal_strlit("6");
    reveal_strlit("7");
    reveal_strlit("8");
    reveal_strlit("9");
    if name.len() == 1 && name[0] == '0' {
        assert(name =~= "0"@);
    }
    if name.len() == 1 && name[0] == '1' {
        assert(name =~= "1"@);
    }
    if name.len() == 1 && name[0] == '2' {
        assert(name =~= "2"@);
    }
    if name.len() == 1 && name[0] == '3' {
        assert(name =~= "3"@);
    }
    if name.len() == 1 && name[0] == '4' {
        assert(name =~= "4"@);
    }
    if name.len() == 1 && name[0] == '5' {
        assert(name =~= "5"@);
    }
    if name.len() == 1 && name[0] == '6' {
        assert(name =~= "6"@);
    }
    if name.len() == 1 && name[0] == '7' {
        assert(name =~= "7"@);
    }
    if name.len() == 1 && name[0] == '8' {
        assert(name =~= "8"@);
    }
    if name.len() == 1 && name[0] == '9' {
        assert(name =~= "9"@);
    }
}

/// The virtual keys of the function keys stand in their order, from 0x70 on.
pub proof fn lemma_function_keys_stand_in_order(name: Seq<char>)
    ensures
        function_named(name) matches Some(c) ==> name.len() == 2 && name[0] == 'F' && vk_of(c)
            == 0x6f + (name[1] as int - '0' as int) || name.len() == 3 && name[0] == 'F' && vk_of(c)
            == 0x6f + (name[1] as int - '0' as int) * 10 + (name[2] as int - '0' as int),
{
    reveal_strlit("F1");
    reveal_strlit("F2");
    reveal_strlit("F3");
    reveal_strlit("F4");
    reveal_strlit("F5");
    reveal_strlit("F6");
    reveal_strlit("F7");
    reveal_strlit("F8");
    reveal_strlit("F9");
    reveal_strlit("F10");
    reveal_strlit("F11");
    reveal_strlit("F12");
    reveal_strlit("F13");
    reveal_strlit("F14");
    reveal_strlit("F15");
    reveal_strlit("F16");
    reveal_strlit("F17");
    reveal_strlit("F18");
    reveal_strlit("F19");
    reveal_strlit("F20");
    reveal_strlit("F21");
    reveal_strlit("F22");
    reveal_strlit("F23");
    reveal_strlit("F24");
}

/// The virtual keys of the digits of the number pad stand in their order, from
/// 0x60 on.
#[verifier::rlimit(40)]
#[verifier::spinoff_prover]
pub proof fn lemma_pad_digits_stand_in_order(name: Seq<char>)
    ensures
        pad_named(name) matches Some(c) ==> (0x60 <= vk_of(c) <= 0x69 ==> name.len() > 0 && vk_of(c)
            == 0x60 + (name.last() as int - '0' as int)),
{
    reveal_strlit("NUMPAD0");
    reveal_strlit("NUM0");
    reveal_strlit("KP0");
    reveal_strlit("NUMPAD1");
    reveal_strlit("NUM1");
    reveal_strlit("KP1");
    reveal_strlit("NUMPAD2");
    reveal_strlit("NUM2");
    reveal_strlit("KP2");
    reveal_strlit("NUMPAD3");
    reveal_strlit("NUM3");
    reveal_strlit("KP3");
    reveal_strlit("NUMPAD4");
    reveal_strlit("NUM4");
    reveal_strlit("KP4");
    reveal_strlit("NUMPAD5");
    reveal_strlit("NUM5");
    reveal_strlit("KP5");
    reveal_strlit("NUMPAD6");
    reveal_strlit("NUM6");
    reveal_strlit("KP6");
    reveal_strlit("NUMPAD7");
    reveal_strlit("NUM7");
    reveal_strlit("KP7");
    reveal_strlit("NUMPAD8");
    reveal_strlit("NUM8");
    reveal_strlit("KP8");
    reveal_strlit("NUMPAD9");
    reveal_strlit("NUM9");
    reveal_strlit("KP9");
}

/// The keys that have no number of their own: each goes by its names and by no
/// other, and has its virtual key.
pub proof fn lemma_named_keys_have_their_virtual_keys(name: Seq<char>, c: Code)
    requires
        plain_named(name) == Some(c) || pad_named(name) == Some(c),
    ensures
        vk_of(c) == 0x20 ==> name == "SPACE"@,
        vk_of(c) == 0x0d ==> name == "ENTER"@ || name == "RETURN"@ || name == "NUMPADENTER"@ || name
            == "KPENTER"@,
        vk_of(c) == 0x09 ==> name == "TAB"@,
        vk_of(c) == 0x1b ==> name == "ESCAPE"@ || name == "ESC"@,
        vk_of(c) == 0x08 ==> name == "BACKSPACE"@,
        vk_of(c) == 0x2e ==> name == "DELETE"@ || name == "DEL"@,
        vk_of(c) == 0x2d ==> name == "INSERT"@ || name == "INS"@,
        vk_of(c) == 0x24 ==> name == "HOME"@,
        vk_of(c) == 0x23 ==> name == "END"@,
        vk_of(c) == 0x21 ==> name == "PAGEUP"@ || name == "PGUP"@,
        vk_of(c) == 0x22 ==> name == "PAGEDOWN"@ || name == "PGDN"@,
        vk_of(c) == 0x26 ==> name == "UP"@,
        vk_of(c) == 0x28 ==> name == "DOWN"@,
        vk_of(c) == 0x25 ==> name == "LEFT"@,
        vk_of(c) == 0x27 ==> name == "RIGHT"@,
        vk_of(c) == 0x2c ==> name == "PRINTSCREEN"@ || name == "PRTSC"@ || name == "PRINT"@,
        vk_of(c) == 0x13 ==> name == "PAUSE"@ || name == "PAUSEBREAK"@ || name == "BREAK"@,
        vk_of(c) == 0x91 ==> name == "SCROLLLOCK"@ || name == "SCROLL"@,
        vk_of(c) == 0x6b ==> name == "NUMPADADD"@ || name == "NUMADD"@ || name == "KPADD"@,
        vk_of(c) == 0x6d ==> name == "NUMPADSUB"@ || name == "NUMSUB"@ || name == "KPSUB"@ || name
            == "NUMPADSUBTRACT"@,
        vk_of(c) == 0x6a ==> name == "NUMPADMUL"@ || name == "NUMMUL"@ || name == "KPMUL"@ || name
            == "NUMPADMULTIPLY"@,
        vk_of(c) == 0x6f ==> name == "NUMPADDIV"@ || name == "NUMDIV"@ || name == "KPDIV"@ || name
            == "NUMPADDIVIDE"@,
        vk_of(c) == 0x6e ==> name == "NUMPADDOT"@ || name == "NUMDOT"@ || name == "KPDOT"@ || name
            == "NUMPADDECIMAL"@,
        vk_of(c) == 0x20 || vk_of(c) == 0x0d || vk_of(c) == 0x09 || vk_of(c) == 0x1b || vk_of(c)
            == 0x08 || 0x21 <= vk_of(c) <= 0x28 || vk_of(c) == 0x2e || vk_of(c) == 0x2d || vk_of(c)
            == 0x2c || vk_of(c) == 0x13 || vk_of(c) == 0x91 || 0x60 <= vk_of(c) <= 0x6f,
{
}

/// A hotkey's key that is written as one letter or digit is found under the
/// virtual key of that letter or digit.
pub proof fn lemma_typed_keys_are_found(s: &str, c: Code, vk: u32)
    requires
        call_ensures(parse_key_code, (s,), Some(c)),
        call_ensures(code_to_vk, (c,), vk),
        s@.len() == 1,
        'a' <= s@[0] <= 'z' || 'A' <= s@[0] <= 'Z' || '0' <= s@[0] <= '9',
    ensures
        'a' <= s@[0] <= 'z' ==> vk == s@[0] as u32 - 32,
        !('a' <= s@[0] <= 'z') ==> vk == s@[0] as u32,
{
    let up = text::uppercase(s@);
    assert(text::is_ascii(s@));
    assert(up.len() == 1 && up[0] == text::ascii_upper(s@[0]));
    lemma_letters_are_their_own_keys(up);
    lemma_digits_are_their_own_keys(up);
}

/// No key has the name of a button.
#[verifier::rlimit(50)]
#[verifier::spinoff_prover]
pub proof fn lemma_no_key_is_a_button(name: Seq<char>)
    requires
        name == "MOUSE4"@ || name == "MOUSE5"@ || name == "XBUTTON1"@ || name == "XBUTTON2"@,
    ensures
        key_named(name) is None,
{
    reveal_strlit("MOUSE4");
    reveal_strlit("MOUSE5");
    reveal_strlit("XBUTTON1");
    reveal_strlit("XBUTTON2");
    reveal_strlit("A");
    reveal_strlit("B");
    reveal_strlit("C");
    reveal_strlit("D");
    reveal_strlit("E");
    reveal_strlit("F");
    reveal_strlit("G");
    reveal_strlit("H");
    reveal_strlit("I");
    reveal_strlit("J");
    reveal_strlit("K");
    reveal_strlit("L");
    reveal_strlit("M");
    reveal_strlit("N");
    reveal_strlit("O");
    reveal_strlit("P");
    reveal_strlit("Q");
    reveal_strlit("R");
    reveal_strlit("S");
    reveal_strlit("T");
    reveal_strlit("U");
    reveal_strlit("V");
    reveal_strlit("W");
    reveal_strlit("X");
    reveal_strlit("Y");
    reveal_strlit("Z");
    reveal_strlit("0");
    reveal_strlit("1");
    reveal_strlit("2");
    reveal_strlit("3");
    reveal_strlit("4");
    reveal_strlit("5");
    reveal_strlit("6");
    reveal_strlit("7");
    reveal_strlit("8");
    reveal_strlit("9");
    reveal_strlit("F1");
    reveal_strlit("F2");
    reveal_strlit("F3");
    reveal_strlit("F4");
    reveal_strlit("F5");
    reveal_strlit("F6");
    reveal_strlit("F7");
    reveal_strlit("F8");
    reveal_strlit("F9");
    reveal_strlit("F10");
    reveal_strlit("F11");
    reveal_strlit("F12");
    reveal_strlit("F13");
    reveal_strlit("F14");
    reveal_strlit("F15");
    reveal_strlit("F16");
    reveal_strlit("F17");
    reveal_strlit("F18");
    reveal_strlit("F19");
    reveal_strlit("F20");
    reveal_strlit("F21");
    reveal_strlit("F22");
    reveal_strlit("F23");
    reveal_strlit("F24");
    reveal_strlit("SPACE");
    reveal_strlit("ENTER");
    reveal_strlit("RETURN");
    reveal_strlit("TAB");
    reveal_strlit("ESCAPE");
    reveal_strlit("ESC");
    reveal_strlit("BACKSPACE");
    reveal_strlit("DELETE");
    reveal_strlit("DEL");
    reveal_strlit("INSERT");
    reveal_strlit("INS");
    reveal_strlit("HOME");
    reveal_strlit("END");
    reveal_strlit("PAGEUP");
    reveal_strlit("PGUP");
    reveal_strlit("PAGEDOWN");
    reveal_strlit("PGDN");
    reveal_strlit("UP");
    reveal_strlit("DOWN");
    reveal_strlit("LEFT");
    reveal_strlit("RIGHT");
    reveal_strlit("PRINTSCREEN");
    reveal_strlit("PRTSC");
    reveal_strlit("PRINT");
    reveal_strlit("PAUSE");
    reveal_strlit("PAUSEBREAK");
    reveal_strlit("BREAK");
    reveal_strlit("SCROLLLOCK");
    reveal_strlit("SCROLL");
    reveal_strlit("NUMPAD0");
    reveal_strlit("NUM0");
    reveal_strlit("KP0");
    reveal_strlit("NUMPAD1");
    reveal_strlit("NUM1");
    reveal_strlit("KP1");
    reveal_strlit("NUMPAD2");
    reveal_strlit("NUM2");
    reveal_strlit("KP2");
    reveal_strlit("NUMPAD3");
    reveal_strlit("NUM3");
    reveal_strlit("KP3");
    reveal_strlit("NUMPAD4");
    reveal_strlit("NUM4");
    reveal_strlit("KP4");
    reveal_strlit("NUMPAD5");
    reveal_strlit("NUM5");
    reveal_strlit("KP5");
    reveal_strlit("NUMPAD6");
    reveal_strlit("NUM6");
    reveal_strlit("KP6");
    reveal_strlit("NUMPAD7");
    reveal_strlit("NUM7");
    reveal_strlit("KP7");
    reveal_strlit("NUMPAD8");
    reveal_strlit("NUM8");
    reveal_strlit("KP8");
    reveal_strlit("NUMPAD9");
    reveal_strlit("NUM9");
    reveal_strlit("KP9");
    reveal_strlit("NUMPADADD");
    reveal_strlit("NUMADD");
    reveal_strlit("KPADD");
    reveal_strlit("NUMPADSUB");
    reveal_strlit("NUMSUB");
    reveal_strlit("KPSUB");
    reveal_strlit("NUMPADSUBTRACT");
    reveal_strlit("NUMPADMUL");
    reveal_strlit("NUMMUL");
    reveal_strlit("KPMUL");
    reveal_strlit("NUMPADMULTIPLY");
    reveal_strlit("NUMPADDIV");
    reveal_strlit("NUMDIV");
    reveal_strlit("KPDIV");
    reveal_strlit("NUMPADDIVIDE");
    reveal_strlit("NUMPADDOT");
    reveal_strlit("NUMDOT");
    reveal_strlit("KPDOT");
    reveal_strlit("NUMPADDECIMAL");
    reveal_strlit("NUMPADENTER");
    reveal_strlit("KPENTER");
    assert(name.len() > 5 && (name[0] == 'M' || name[0] == 'X'));
}

} // verus!
