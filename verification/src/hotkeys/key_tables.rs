//! The two tables of key names, that of hotkeys and that of input devices: they
//! agree.

use vstd::prelude::*;

use crate::hotkeys;
use crate::hotkeys::evdev_linux;
use crate::hotkeys::keys;
use crate::hotkeys::keys::Code;
use crate::hotkeys::Modifier;
use crate::hotkeys::Modifiers;
use crate::text;

verus! {

/// The number that an input device has for a key.
pub open spec fn scan_of(code: Code) -> u16 {
    match code {
        Code::KeyA => 30,
        Code::KeyB => 48,
        Code::KeyC => 46,
        Code::KeyD => 32,
        Code::KeyE => 18,
        Code::KeyF => 33,
        Code::KeyG => 34,
        Code::KeyH => 35,
        Code::KeyI => 23,
        Code::KeyJ => 36,
        Code::KeyK => 37,
        Code::KeyL => 38,
        Code::KeyM => 50,
        Code::KeyN => 49,
        Code::KeyO => 24,
        Code::KeyP => 25,
        Code::KeyQ => 16,
        Code::KeyR => 19,
        Code::KeyS => 31,
        Code::KeyT => 20,
        Code::KeyU => 22,
        Code::KeyV => 47,
        Code::KeyW => 17,
        Code::KeyX => 45,
        Code::KeyY => 21,
        Code::KeyZ => 44,
        Code::Digit0 => 11,
        Code::Digit1 => 2,
        Code::Digit2 => 3,
        Code::Digit3 => 4,
        Code::Digit4 => 5,
        Code::Digit5 => 6,
        Code::Digit6 => 7,
        Code::Digit7 => 8,
        Code::Digit8 => 9,
        Code::Digit9 => 10,
        Code::F1 => 59,
        Code::F2 => 60,
        Code::F3 => 61,
        Code::F4 => 62,
        Code::F5 => 63,
        Code::F6 => 64,
        Code::F7 => 65,
        Code::F8 => 66,
        Code::F9 => 67,
        Code::F10 => 68,
        Code::F11 => 87,
        Code::F12 => 88,
        Code::F13 => 183,
        Code::F14 => 184,
        Code::F15 => 185,
        Code::F16 => 186,
        Code::F17 => 187,
        Code::F18 => 188,
        Code::F19 => 189,
        Code::F20 => 190,
        Code::F21 => 191,
        Code::F22 => 192,
        Code::F23 => 193,
        Code::F24 => 194,
        Code::Space => 57,
        Code::Enter => 28,
        Code::Tab => 15,
        Code::Escape => 1,
        Code::Backspace => 14,
        Code::Delete => 111,
        Code::Insert => 110,
        Code::Home => 102,
        Code::End => 107,
        Code::PageUp => 104,
        Code::PageDown => 109,
        Code::ArrowUp => 103,
        Code::ArrowDown => 108,
        Code::ArrowLeft => 105,
        Code::ArrowRight => 106,
        Code::PrintScreen => 99,
        Code::Pause => 119,
        Code::ScrollLock => 70,
        Code::Numpad0 => 82,
        Code::Numpad1 => 79,
        Code::Numpad2 => 80,
        Code::Numpad3 => 81,
        Code::Numpad4 => 75,
        Code::Numpad5 => 76,
        Code::Numpad6 => 77,
        Code::Numpad7 => 71,
        Code::Numpad8 => 72,
        Code::Numpad9 => 73,
        Code::NumpadAdd => 78,
        Code::NumpadSubtract => 74,
        Code::NumpadMultiply => 55,
        Code::NumpadDivide => 98,
        Code::NumpadDecimal => 83,
        Code::NumpadEnter => 96,
    }
}

/// The key of a number of an input device.
spec fn key_at(scan: u16) -> Option<Code> {
    if scan == 30 {
        Some(Code::KeyA)
    } else if scan == 48 {
        Some(Code::KeyB)
    } else if scan == 46 {
        Some(Code::KeyC)
    } else if scan == 32 {
        Some(Code::KeyD)
    } else if scan == 18 {
        Some(Code::KeyE)
    } else if scan == 33 {
        Some(Code::KeyF)
    } else if scan == 34 {
        Some(Code::KeyG)
    } else if scan == 35 {
        Some(Code::KeyH)
    } else if scan == 23 {
        Some(Code::KeyI)
    } else if scan == 36 {
        Some(Code::KeyJ)
    } else if scan == 37 {
        Some(Code::KeyK)
    } else if scan == 38 {
        Some(Code::KeyL)
    } else if scan == 50 {
        Some(Code::KeyM)
    } else if scan == 49 {
        Some(Code::KeyN)
    } else if scan == 24 {
        Some(Code::KeyO)
    } else if scan == 25 {
        Some(Code::KeyP)
    } else if scan == 16 {
        Some(Code::KeyQ)
    } else if scan == 19 {
        Some(Code::KeyR)
    } else if scan == 31 {
        Some(Code::KeyS)
    } else if scan == 20 {
        Some(Code::KeyT)
    } else if scan == 22 {
        Some(Code::KeyU)
    } else if scan == 47 {
        Some(Code::KeyV)
    } else if scan == 17 {
        Some(Code::KeyW)
    } else if scan == 45 {
        Some(Code::KeyX)
    } else if scan == 21 {
        Some(Code::KeyY)
    } else if scan == 44 {
        Some(Code::KeyZ)
    } else if scan == 11 {
        Some(Code::Digit0)
    } else if scan == 2 {
        Some(Code::Digit1)
    } else if scan == 3 {
        Some(Code::Digit2)
    } else if scan == 4 {
        Some(Code::Digit3)
    } else if scan == 5 {
        Some(Code::Digit4)
    } else if scan == 6 {
        Some(Code::Digit5)
    } else if scan == 7 {
        Some(Code::Digit6)
    } else if scan == 8 {
        Some(Code::Digit7)
    } else if scan == 9 {
        Some(Code::Digit8)
    } else if scan == 10 {
        Some(Code::Digit9)
    } else if scan == 59 {
        Some(Code::F1)
    } else if scan == 60 {
        Some(Code::F2)
    } else if scan == 61 {
        Some(Code::F3)
    } else if scan == 62 {
        Some(Code::F4)
    } else if scan == 63 {
        Some(Code::F5)
    } else if scan == 64 {
        Some(Code::F6)
    } else if scan == 65 {
        Some(Code::F7)
    } else if scan == 66 {
        Some(Code::F8)
    } else if scan == 67 {
        Some(Code::F9)
    } else if scan == 68 {
        Some(Code::F10)
    } else if scan == 87 {
        Some(Code::F11)
    } else if scan == 88 {
        Some(Code::F12)
    } else if scan == 183 {
        Some(Code::F13)
    } else if scan == 184 {
        Some(Code::F14)
    } else if scan == 185 {
        Some(Code::F15)
    } else if scan == 186 {
        Some(Code::F16)
    } else if scan == 187 {
        Some(Code::F17)
    } else if scan == 188 {
        Some(Code::F18)
    } else if scan == 189 {
        Some(Code::F19)
    } else if scan == 190 {
        Some(Code::F20)
    } else if scan == 191 {
        Some(Code::F21)
    } else if scan == 192 {
        Some(Code::F22)
    } else if scan == 193 {
        Some(Code::F23)
    } else if scan == 194 {
        Some(Code::F24)
    } else if scan == 57 {
        Some(Code::Space)
    } else if scan == 28 {
        Some(Code::Enter)
    } else if scan == 15 {
        Some(Code::Tab)
    } else if scan == 1 {
        Some(Code::Escape)
    } else if scan == 14 {
        Some(Code::Backspace)
    } else if scan == 111 {
        Some(Code::Delete)
    } else if scan == 110 {
        Some(Code::Insert)
    } else if scan == 102 {
        Some(Code::Home)
    } else if scan == 107 {
        Some(Code::End)
    } else if scan == 104 {
        Some(Code::PageUp)
    } else if scan == 109 {
        Some(Code::PageDown)
    } else if scan == 103 {
        Some(Code::ArrowUp)
    } else if scan == 108 {
        Some(Code::ArrowDown)
    } else if scan == 105 {
        Some(Code::ArrowLeft)
    } else if scan == 106 {
        Some(Code::ArrowRight)
    } else if scan == 99 {
        Some(Code::PrintScreen)
    } else if scan == 119 {
        Some(Code::Pause)
    } else if scan == 70 {
        Some(Code::ScrollLock)
    } else if scan == 82 {
        Some(Code::Numpad0)
    } else if scan == 79 {
        Some(Code::Numpad1)
    } else if scan == 80 {
        Some(Code::Numpad2)
    } else if scan == 81 {
        Some(Code::Numpad3)
    } else if scan == 75 {
        Some(Code::Numpad4)
    } else if scan == 76 {
        Some(Code::Numpad5)
    } else if scan == 77 {
        Some(Code::Numpad6)
    } else if scan == 71 {
        Some(Code::Numpad7)
    } else if scan == 72 {
        Some(Code::Numpad8)
    } else if scan == 73 {
        Some(Code::Numpad9)
    } else if scan == 78 {
        Some(Code::NumpadAdd)
    } else if scan == 74 {
        Some(Code::NumpadSubtract)
    } else if scan == 55 {
        Some(Code::NumpadMultiply)
    } else if scan == 98 {
        Some(Code::NumpadDivide)
    } else if scan == 83 {
        Some(Code::NumpadDecimal)
    } else if scan == 96 {
        Some(Code::NumpadEnter)
    } else {
        None
    }
}

proof fn lemma_scan_tells_keys_apart(a: Code, b: Code)
    requires
        scan_of(a) == scan_of(b),
    ensures
        a == b,
{
    assert(key_at(scan_of(a)) == Some(a));
    assert(key_at(scan_of(b)) == Some(b));
}

proof fn lemma_letter_scans(name: Seq<char>)
    requires
        keys::letter_named(name) is Some,
    ensures
        evdev_linux::key_scan(name) == Some(scan_of(keys::letter_named(name)->0)),
{
    reveal_strlit("A");
    reveal_strlit("B");
    reveal_strlit("C");
    reveal_strlit("D");
    reveal_strlit("E");
    reveal_strlit("F");
    reveal_strlit("G");
    reveal_strlit("H");
    reveal_strlit("I");
    reveal_strlit("J");
    reveal_strlit("K");
    reveal_strlit("L");
    reveal_strlit("M");
    reveal_strlit("N");
    reveal_strlit("O");
    reveal_strlit("P");
    reveal_strlit("Q");
    reveal_strlit("R");
    reveal_strlit("S");
    reveal_strlit("T");
    reveal_strlit("U");
    reveal_strlit("V");
    reveal_strlit("W");
    reveal_strlit("X");
    reveal_strlit("Y");
    reveal_strlit("Z");
    if name == "A"@ {
        assert(name[0] as int - 'A' as int == 0);
        assert(evdev_linux::letter_keys()[0] == 30);
    } else if name == "B"@ {
        assert(name[0] as int - 'A' as int == 1);
        assert(evdev_linux::letter_keys()[1] == 48);
    } else if name == "C"@ {
        assert(name[0] as int - 'A' as int == 2);
        assert(evdev_linux::letter_keys()[2] == 46);
    } else if name == "D"@ {
        assert(name[0] as int - 'A' as int == 3);
        assert(evdev_linux::letter_keys()[3] == 32);
    } else if name == "E"@ {
        assert(name[0] as int - 'A' as int == 4);
        assert(evdev_linux::letter_keys()[4] == 18);
    } else if name == "F"@ {
        assert(name[0] as int - 'A' as int == 5);
        assert(evdev_linux::letter_keys()[5] == 33);
    } else if name == "G"@ {
        assert(name[0] as int - 'A' as int == 6);
        assert(evdev_linux::letter_keys()[6] == 34);
    } else if name == "H"@ {
        assert(name[0] as int - 'A' as int == 7);
        assert(evdev_linux::letter_keys()[7] == 35);
    } else if name == "I"@ {
        assert(name[0] as int - 'A' as int == 8);
        assert(evdev_linux::letter_keys()[8] == 23);
    } else if name == "J"@ {
        assert(name[0] as int - 'A' as int == 9);
        assert(evdev_linux::letter_keys()[9] == 36);
    } else if name == "K"@ {
        assert(name[0] as int - 'A' as int == 10);
        assert(evdev_linux::letter_keys()[10] == 37);
    } else if name == "L"@ {
        assert(name[0] as int - 'A' as int == 11);
        assert(evdev_linux::letter_keys()[11] == 38);
    } else if name == "M"@ {
        assert(name[0] as int - 'A' as int == 12);
        assert(evdev_linux::letter_keys()[12] == 50);
    } else if name == "N"@ {
        assert(name[0] as int - 'A' as int == 13);
        assert(evdev_linux::letter_keys()[13] == 49);
    } else if name == "O"@ {
        assert(name[0] as int - 'A' as int == 14);
        assert(evdev_linux::letter_keys()[14] == 24);
    } else if name == "P"@ {
        assert(name[0] as int - 'A' as int == 15);
        assert(evdev_linux::letter_keys()[15] == 25);
    } else if name == "Q"@ {
        assert(name[0] as int - 'A' as int == 16);
        assert(evdev_linux::letter_keys()[16] == 16);
    } else if name == "R"@ {
        assert(name[0] as int - 'A' as int == 17);
        assert(evdev_linux::letter_keys()[17] == 19);
    } else if name == "S"@ {
        assert(name[0] as int - 'A' as int == 18);
        assert(evdev_linux::letter_keys()[18] == 31);
    } else if name == "T"@ {
        assert(name[0] as int - 'A' as int == 19);
        assert(evdev_linux::letter_keys()[19] == 20);
    } else if name == "U"@ {
        assert(name[0] as int - 'A' as int == 20);
        assert(evdev_linux::letter_keys()[20] == 22);
    } else if name == "V"@ {
        assert(name[0] as int - 'A' as int == 21);
        assert(evdev_linux::letter_keys()[21] == 47);
    } else if name == "W"@ {
        assert(name[0] as int - 'A' as int == 22);
        assert(evdev_linux::letter_keys()[22] == 17);
    } else if name == "X"@ {
        assert(name[0] as int - 'A' as int == 23);
        assert(evdev_linux::letter_keys()[23] == 45);
    } else if name == "Y"@ {
        assert(name[0] as int - 'A' as int == 24);
        assert(evdev_linux::letter_keys()[24] == 21);
    } else if name == "Z"@ {
        assert(name[0] as int - 'A' as int == 25);
        assert(evdev_linux::letter_keys()[25] == 44);
    }
}

proof fn lemma_digit_scans(name: Seq<char>)
    requires
        keys::digit_named(name) is Some,
    ensures
        evdev_linux::key_scan(name) == Some(scan_of(keys::digit_named(name)->0)),
{
    reveal_strlit("0");
    reveal_strlit("1");
    reveal_strlit("2");
    reveal_strlit("3");
    reveal_strlit("4");
    reveal_strlit("5");
    reveal_strlit("6");
    reveal_strlit("7");
    reveal_strlit("8");
    reveal_strlit("9");
    if name == "0"@ {
        assert(name[0] as int - '0' as int == 0);
        assert(evdev_linux::digit_keys()[0] == 11);
    } else if name == "1"@ {
        assert(name[0] as int - '0' as int == 1);
        assert(evdev_linux::digit_keys()[1] == 2);
    } else if name == "2"@ {
        assert(name[0] as int - '0' as int == 2);
        assert(evdev_linux::digit_keys()[2] == 3);
    } else if name == "3"@ {
        assert(name[0] as int - '0' as int == 3);
        assert(evdev_linux::digit_keys()[3] == 4);
    } else if name == "4"@ {
        assert(name[0] as int - '0' as int == 4);
        assert(evdev_linux::digit_keys()[4] == 5);
    } else if name == "5"@ {
        assert(name[0] as int - '0' as int == 5);
        assert(evdev_linux::digit_keys()[5] == 6);
    } else if name == "6"@ {
        assert(name[0] as int - '0' as int == 6);
        assert(evdev_linux::digit_keys()[6] == 7);
    } else if name == "7"@ {
        assert(name[0] as int - '0' as int == 7);
        assert(evdev_linux::digit_keys()[7] == 8);
    } else if name == "8"@ {
        assert(name[0] as int - '0' as int == 8);
        assert(evdev_linux::digit_keys()[8] == 9);
    } else if name == "9"@ {
        assert(name[0] as int - '0' as int == 9);
        assert(evdev_linux::digit_keys()[9] == 10);
    }
}

proof fn lemma_number(s: Seq<char>)
    requires
        1 <= s.len() <= 2,
        forall|i: int| 0 <= i < s.len() ==> '0' <= #[trigger] s[i] <= '9',
    ensures
        evdev_linux::small_number(s) == Some(
            if s.len() == 1 {
                s[0] as int - '0' as int
            } else {
                (s[0] as int - '0' as int) * 10 + (s[1] as int - '0' as int)
            },
        ),
{
    reveal_with_fuel(evdev_linux::decimal, 3);
    assert(s[0] >= '0');
    if s.len() == 2 {
        assert(s.drop_last()[0] == s[0]);
    }
}

proof fn lemma_function_scans(name: Seq<char>)
    requires
        keys::function_named(name) is Some,
    ensures
        name.len() > 1,
        evdev_linux::key_scan(name) == Some(scan_of(keys::function_named(name)->0)),
{
    reveal_strlit("F1");
    reveal_strlit("F2");
    reveal_strlit("F3");
    reveal_strlit("F4");
    reveal_strlit("F5");
    reveal_strlit("F6");
    reveal_strlit("F7");
    reveal_strlit("F8");
    reveal_strlit("F9");
    reveal_strlit("F10");
    reveal_strlit("F11");
    reveal_strlit("F12");
    reveal_strlit("F13");
    reveal_strlit("F14");
    reveal_strlit("F15");
    reveal_strlit("F16");
    reveal_strlit("F17");
    reveal_strlit("F18");
    reveal_strlit("F19");
    reveal_strlit("F20");
    reveal_strlit("F21");
    reveal_strlit("F22");
    reveal_strlit("F23");
    reveal_strlit("F24");
    let d = name.skip(1);
    assert(d[0] == name[1]);
    if name.len() == 3 {
        assert(d[1] == name[2]);
    }
    lemma_number(d);
    if name == "F1"@ {
        assert(evdev_linux::small_number(d) == Some(1int));
        assert(evdev_linux::function_scan(1) == Some(59u16));
    } else if name == "F2"@ {
        assert(evdev_linux::small_number(d) == Some(2int));
        assert(evdev_linux::function_scan(2) == Some(60u16));
    } else if name == "F3"@ {
        assert(evdev_linux::small_number(d) == Some(3int));
        assert(evdev_linux::function_scan(3) == Some(61u16));
    } else if name == "F4"@ {
        assert(evdev_linux::small_number(d) == Some(4int));
        assert(evdev_linux::function_scan(4) == Some(62u16));
    } else if name == "F5"@ {
        assert(evdev_linux::small_number(d) == Some(5int));
        assert(evdev_linux::function_scan(5) == Some(63u16));
    } else if name == "F6"@ {
        assert(evdev_linux::small_number(d) == Some(6int));
        assert(evdev_linux::function_scan(6) == Some(64u16));
    } else if name == "F7"@ {
        assert(evdev_linux::small_number(d) == Some(7int));
        assert(evdev_linux::function_scan(7) == Some(65u16));
    } else if name == "F8"@ {
        assert(evdev_linux::small_number(d) == Some(8int));
        assert(evdev_linux::function_scan(8) == Some(66u16));
    } else if name == "F9"@ {
        assert(evdev_linux::small_number(d) == Some(9int));
        assert(evdev_linux::function_scan(9) == Some(67u16));
    } else if name == "F10"@ {
        assert(evdev_linux::small_number(d) == Some(10int));
        assert(evdev_linux::function_scan(10) == Some(68u16));
    } else if name == "F11"@ {
        assert(evdev_linux::small_number(d) == Some(11int));
        assert(evdev_linux::function_scan(11) == Some(87u16));
    } else if name == "F12"@ {
        assert(evdev_linux::small_number(d) == Some(12int));
        assert(evdev_linux::function_scan(12) == Some(88u16));
    } else if name == "F13"@ {
        assert(evdev_linux::small_number(d) == Some(13int));
        assert(evdev_linux::function_scan(13) == Some(183u16));
    } else if name == "F14"@ {
        assert(evdev_linux::small_number(d) == Some(14int));
        assert(evdev_linux::function_scan(14) == Some(184u16));
    } else if name == "F15"@ {
        assert(evdev_linux::small_number(d) == Some(15int));
        assert(evdev_linux::function_scan(15) == Some(185u16));
    } else if name == "F16"@ {
        assert(evdev_linux::small_number(d) == Some(16int));
        assert(evdev_linux::function_scan(16) == Some(186u16));
    } else if name == "F17"@ {
        assert(evdev_linux::small_number(d) == Some(17int));
        assert(evdev_linux::function_scan(17) == Some(187u16));
    } else if name == "F18"@ {
        assert(evdev_linux::small_number(d) == Some(18int));
        assert(evdev_linux::function_scan(18) == Some(188u16));
    } else if name == "F19"@ {
        assert(evdev_linux::small_number(d) == Some(19int));
        assert(evdev_linux::function_scan(19) == Some(189u16));
    } else if name == "F20"@ {
        assert(evdev_linux::small_number(d) == Some(20int));
        assert(evdev_linux::function_scan(20) == Some(190u16));
    } else if name == "F21"@ {
        assert(evdev_linux::small_number(d) == Some(21int));
        assert(evdev_linux::function_scan(21) == Some(191u16));
    } else if name == "F22"@ {
        assert(evdev_linux::small_number(d) == Some(22int));
        assert(evdev_linux::function_scan(22) == Some(192u16));
    } else if name == "F23"@ {
        assert(evdev_linux::small_number(d) == Some(23int));
        assert(evdev_linux::function_scan(23) == Some(193u16));
    } else if name == "F24"@ {
        assert(evdev_linux::small_number(d) == Some(24int));
        assert(evdev_linux::function_scan(24) == Some(194u16));
    }
}

proof fn lemma_plain_scans(name: Seq<char>)
    ensures
        keys::plain_named(name) is Some ==> name.len() > 1 && name[0] != 'F' && evdev_linux::key_scan(name)
            == Some(scan_of(keys::plain_named(name)->0)),
        evdev_linux::plain_scan(name) is Some ==> name[0] != 'N' && name[0] != 'K',
{
    reveal_strlit("SPACE");
    reveal_strlit("ENTER");
    reveal_strlit("RETURN");
    reveal_strlit("TAB");
    reveal_strlit("ESCAPE");
    reveal_strlit("ESC");
    reveal_strlit("BACKSPACE");
    reveal_strlit("DELETE");
    reveal_strlit("DEL");
    reveal_strlit("INSERT");
    reveal_strlit("INS");
    reveal_strlit("HOME");
    reveal_strlit("END");
    reveal_strlit("PAGEUP");
    reveal_strlit("PGUP");
    reveal_strlit("PAGEDOWN");
    reveal_strlit("PGDN");
    reveal_strlit("UP");
    reveal_strlit("DOWN");
    reveal_strlit("LEFT");
    reveal_strlit("RIGHT");
    reveal_strlit("PRINTSCREEN");
    reveal_strlit("PRTSC");
    reveal_strlit("PRINT");
    reveal_strlit("PAUSE");
    reveal_strlit("PAUSEBREAK");
    reveal_strlit("BREAK");
    reveal_strlit("SCROLLLOCK");
    reveal_strlit("SCROLL");
}

proof fn lemma_pad_scans(name: Seq<char>)
    requires
        keys::pad_named(name) is Some,
    ensures
        evdev_linux::key_scan(name) == Some(scan_of(keys::pad_named(name)->0)),
{
    lemma_plain_scans(name);
    reveal_strlit("NUMPAD0");
    reveal_strlit("NUM0");
    reveal_strlit("KP0");
    reveal_strlit("NUMPAD1");
    reveal_strlit("NUM1");
    reveal_strlit("KP1");
    reveal_strlit("NUMPAD2");
    reveal_strlit("NUM2");
    reveal_strlit("KP2");
    reveal_strlit("NUMPAD3");
    reveal_strlit("NUM3");
    reveal_strlit("KP3");
    reveal_strlit("NUMPAD4");
    reveal_strlit("NUM4");
    reveal_strlit("KP4");
    reveal_strlit("NUMPAD5");
    reveal_strlit("NUM5");
    reveal_strlit("KP5");
    reveal_strlit("NUMPAD6");
    reveal_strlit("NUM6");
    reveal_strlit("KP6");
    reveal_strlit("NUMPAD7");
    reveal_strlit("NUM7");
    reveal_strlit("KP7");
    reveal_strlit("NUMPAD8");
    reveal_strlit("NUM8");
    reveal_strlit("KP8");
    reveal_strlit("NUMPAD9");
    reveal_strlit("NUM9");
    reveal_strlit("KP9");
    reveal_strlit("NUMPADADD");
    reveal_strlit("NUMADD");
    reveal_strlit("KPADD");
    reveal_strlit("NUMPADSUB");
    reveal_strlit("NUMSUB");
    reveal_strlit("KPSUB");
    reveal_strlit("NUMPADSUBTRACT");
    reveal_strlit("NUMPADMUL");
    reveal_strlit("NUMMUL");
    reveal_strlit("KPMUL");
    reveal_strlit("NUMPADMULTIPLY");
    reveal_strlit("NUMPADDIV");
    reveal_strlit("NUMDIV");
    reveal_strlit("KPDIV");
    reveal_strlit("NUMPADDIVIDE");
    reveal_strlit("NUMPADDOT");
    reveal_strlit("NUMDOT");
    reveal_strlit("KPDOT");
    reveal_strlit("NUMPADDECIMAL");
    reveal_strlit("NUMPADENTER");
    reveal_strlit("KPENTER");
    assert(name.len() > 1 && (name[0] == 'N' || name[0] == 'K'));
    assert(evdev_linux::pad_scan(name) == Some(scan_of(keys::pad_named(name)->0)));
}

proof fn lemma_named_scans(name: Seq<char>)
    requires
        keys::key_named(name) is Some,
    ensures
        evdev_linux::key_scan(name) == Some(scan_of(keys::key_named(name)->0)),
{
    if keys::letter_named(name) is Some {
        lemma_letter_scans(name);
    } else if keys::digit_named(name) is Some {
        lemma_digit_scans(name);
    } else if keys::function_named(name) is Some {
        lemma_function_scans(name);
    } else if keys::plain_named(name) is Some {
        lemma_plain_scans(name);
    } else {
        lemma_pad_scans(name);
    }
}

/// Every name that hotkeys know is known for input devices too. Its key is never
/// a modifier or a button, and two names stand for one key in the one table
/// exactly where they do in the other.
pub proof fn lemma_key_tables_agree(s: Seq<char>, t: Seq<char>)
    requires
        keys::key_named(s) is Some,
        keys::key_named(t) is Some,
    ensures
        evdev_linux::key_scan(s) is Some,
        evdev_linux::modifier_key(evdev_linux::key_scan(s)->0) is None,
        evdev_linux::side_button(evdev_linux::key_scan(s)->0) is None,
        evdev_linux::key_scan(s) == evdev_linux::key_scan(t) <==> keys::key_named(s) == keys::key_named(t),
{
    lemma_named_scans(s);
    lemma_named_scans(t);
    if evdev_linux::key_scan(s) == evdev_linux::key_scan(t) {
        lemma_scan_tells_keys_apart(keys::key_named(s)->0, keys::key_named(t)->0);
    }
}

// ---- hotkeys and devices -----------------------------------------------------------------------

proof fn lemma_binding_behind(first: Seq<char>, rest: Seq<Seq<char>>, i: int, mods: Modifiers, code: Option<
    u16,
>)
    requires
        0 <= i,
    ensures
        evdev_linux::read_binding(seq![first] + rest, i + 1, mods, code)
            == evdev_linux::read_binding(rest, i, mods, code),
    decreases rest.len() - i,
{
    if i < rest.len() {
        assert((seq![first] + rest)[i + 1] == rest[i]);
        let p = text::ascii_upper_all(text::trim(rest[i]));
        match evdev_linux::upper_modifier(p) {
            Some(m) => {
                lemma_binding_behind(first, rest, i + 1, mods.set(m, true), code);
            },
            None => {
                lemma_binding_behind(first, rest, i + 1, mods, evdev_linux::input_named(p));
            },
        }
    }
}

proof fn lemma_device_modifier(word: Seq<char>, m: Modifier, rest: Seq<char>, mods: Modifiers)
    requires
        keys::is_word(word),
        evdev_linux::upper_modifier(text::ascii_upper_all(word)) == Some(m),
    ensures
        evdev_linux::read_binding(text::split(word.push('+') + rest, '+'), 0, mods, None)
            == evdev_linux::read_binding(text::split(rest, '+'), 0, mods.set(m, true), None),
{
    hotkeys::lemma_words_stay_whole(word);
    hotkeys::lemma_split_front(word, rest);
    let parts = text::split(rest, '+');
    assert((seq![word] + parts)[0] == word);
    lemma_binding_behind(word, parts, 0, mods.set(m, true), None);
}

proof fn lemma_written_modifiers()
    ensures
        keys::is_word("Ctrl"@) && evdev_linux::upper_modifier(text::ascii_upper_all("Ctrl"@))
            == Some(Modifier::Ctrl),
        keys::is_word("Alt"@) && evdev_linux::upper_modifier(text::ascii_upper_all("Alt"@)) == Some(
            Modifier::Alt,
        ),
        keys::is_word("Shift"@) && evdev_linux::upper_modifier(text::ascii_upper_all("Shift"@))
            == Some(Modifier::Shift),
        keys::is_word("Win"@) && evdev_linux::upper_modifier(text::ascii_upper_all("Win"@)) == Some(
            Modifier::Win,
        ),
{
    hotkeys::lemma_modifier_names();
    reveal_strlit("Ctrl");
    reveal_strlit("Alt");
    reveal_strlit("Shift");
    reveal_strlit("Win");
    reveal_strlit("CTRL");
    reveal_strlit("CONTROL");
    reveal_strlit("ALT");
    reveal_strlit("SHIFT");
    reveal_strlit("SUPER");
    reveal_strlit("WIN");
    let ctrl = text::ascii_upper_all("Ctrl"@);
    let alt = text::ascii_upper_all("Alt"@);
    let shift = text::ascii_upper_all("Shift"@);
    let win = text::ascii_upper_all("Win"@);
    assert(ctrl =~= "CTRL"@);
    assert(alt =~= "ALT"@);
    assert(shift =~= "SHIFT"@);
    assert(win =~= "WIN"@);
    assert(shift[1] == 'H');
    assert(win[0] == 'W');
}

/// A hotkey that was written for the keyboard reads, for the devices, as the same
/// modifiers and the number that the devices have for the same key.
pub proof fn lemma_devices_read_what_is_written(mods: Modifiers, code: Code)
    requires
        keys::has_name(code),
    ensures
        evdev_linux::evdev_binding(hotkeys::hotkey_name(mods, code)) == Some(
            (mods.spec_mask() as u8, scan_of(code)),
        ),
{
    let name = keys::code_name(code);
    keys::lemma_name_reads_back(code);
    hotkeys::lemma_words_stay_whole(name);
    lemma_written_modifiers();
    let up = text::ascii_upper_all(name);
    assert(text::uppercase(name) == up);
    lemma_named_scans(up);
    if evdev_linux::upper_modifier(up) is Some {
        keys::lemma_no_key_is_a_modifier(up);
    }
    if evdev_linux::button_named(up) is Some {
        keys::lemma_no_key_is_a_button(up);
    }
    let none = Modifiers::none();
    let c = Modifiers { ctrl: mods.ctrl, ..none };
    let ca = Modifiers { alt: mods.alt, ..c };
    let cas = Modifiers { shift: mods.shift, ..ca };
    let done = Some((mods.spec_mask() as u8, scan_of(code)));
    assert(text::split(name, '+')[0] == name);
    assert(evdev_linux::read_binding(text::split(name, '+'), 1, mods, Some(scan_of(code))) == done);
    assert(evdev_linux::read_binding(text::split(name, '+'), 0, mods, None) == done);
    let w = if mods.win {
        "Win"@.push('+') + name
    } else {
        name
    };
    if mods.win {
        assert(cas.set(Modifier::Win, true) == mods);
        lemma_device_modifier("Win"@, Modifier::Win, name, cas);
    } else {
        assert(cas == mods);
    }
    let s = if mods.shift {
        "Shift"@.push('+') + w
    } else {
        w
    };
    if mods.shift {
        assert(ca.set(Modifier::Shift, true) == cas);
        lemma_device_modifier("Shift"@, Modifier::Shift, w, ca);
    } else {
        assert(ca == cas);
    }
    let a = if mods.alt {
        "Alt"@.push('+') + s
    } else {
        s
    };
    if mods.alt {
        assert(c.set(Modifier::Alt, true) == ca);
        lemma_device_modifier("Alt"@, Modifier::Alt, s, c);
    } else {
        assert(c == ca);
    }
    if mods.ctrl {
        assert(none.set(Modifier::Ctrl, true) == c);
        lemma_device_modifier("Ctrl"@, Modifier::Ctrl, a, none);
    } else {
        assert(none == c);
    }
}

} // verus!
