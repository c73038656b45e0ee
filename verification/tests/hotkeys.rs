//! Hotkeys.

use capscr::hotkeys::evdev_linux::{
    binding_fires_on_edge, binding_key, decode_record, device_path, dispatch, inotify_names,
    keyboard_code, live, mod_bit, normalize_button, open_delay_ms, parse_evdev_binding,
    parse_inotify_names, parse_mouse_binding, record_in, take_record, InputRecord, BTN_BACK, BTN_EXTRA, BTN_FORWARD, BTN_SIDE,
    EV_KEY,
};
use capscr::hotkeys::keys::{code_to_vk, format_code, parse_key_code, Code};
use capscr::hotkeys::ll_hook::{
    key_message, modifier_bit, normalize_numpad_vk, HookBinding, HookEvent, HookState,
    HookVerdict, KeyMessage,
};
use capscr::hotkeys::portal_linux::{
    available, failures, on_activated, record_path, PortalBinding, PortalFault, PortalPhase,
    PortalShortcuts, PortalStep, Shortcut,
};
use capscr::hotkeys::table::{FireLog, TaskTable};
use capscr::hotkeys::{
    format_hotkey, format_hotkey_string, hotkey_to_hook_binding, is_risky_bare, parse_hotkey,
    HotkeyError, HotkeyManager, Modifier, Modifiers, MOD_ALT, MOD_CTRL, MOD_SHIFT, MOD_WIN,
};

fn held(ctrl: bool, shift: bool) -> Modifiers {
    Modifiers { ctrl, alt: false, shift, win: false }
}

// ---- writing and reading hotkeys -------------------------------------------------

#[test]
fn test_format_hotkey() {
    let result = format_hotkey(held(true, true), Code::KeyS);
    assert!(result.contains("Ctrl"));
    assert!(result.contains("Shift"));
    assert!(result.contains("S"));
}

#[test]
fn test_format_code_letters() {
    assert_eq!(format_code(Code::KeyA), "A");
    assert_eq!(format_code(Code::KeyZ), "Z");
}

#[test]
fn test_format_code_numbers() {
    assert_eq!(format_code(Code::Digit0), "0");
    assert_eq!(format_code(Code::Digit9), "9");
}

#[test]
fn test_format_code_function_keys() {
    assert_eq!(format_code(Code::F1), "F1");
    assert_eq!(format_code(Code::F12), "F12");
}

#[test]
fn test_parse_numpad5() {
    let hk = parse_hotkey("Numpad5").expect("parse");
    assert_eq!(hk.mods, Modifiers::empty());
}

#[test]
fn test_parse_pause() {
    let hk = parse_hotkey("Pause").expect("parse");
    assert_eq!(hk.mods, Modifiers::empty());
}

#[test]
fn test_parse_ctrl_shift_s() {
    let hk = parse_hotkey("Ctrl+Shift+S").expect("parse");
    assert!(hk.mods.ctrl);
    assert!(hk.mods.shift);
}

#[test]
fn test_parse_printscreen() {
    let hk = parse_hotkey("PrintScreen").expect("parse PrintScreen");
    assert_eq!(hk.key, Code::PrintScreen);
    assert_eq!(hk.mods, Modifiers::empty());
}

#[test]
fn test_parse_empty_is_err() {
    assert!(parse_hotkey("").is_err(), "empty string must fail");
}

#[test]
fn test_empty_hotkey_skipped_silently() {
    let mut hm = HotkeyManager::new();
    hm.try_register("task-no-key", "");
    assert!(hm.take_errors().is_empty(), "empty hotkey must not produce an error");
}

#[test]
fn test_parse_roundtrip() {
    let cases = &["PrintScreen", "Ctrl+Shift+G", "Ctrl+Shift+S", "Pause", "F12", "Numpad5"];
    for &s in cases {
        let hk = parse_hotkey(s).unwrap_or_else(|e| panic!("parse '{s}' failed: {e:?}"));
        let formatted = format_hotkey(hk.mods, hk.key);
        let hk2 = parse_hotkey(&formatted)
            .unwrap_or_else(|e| panic!("re-parse '{formatted}' failed: {e:?}"));
        assert_eq!(hk, hk2, "roundtrip mismatch for '{s}'");
    }
}

#[test]
fn hotkeys_are_read_loosely_and_written_alike() {
    let hk = parse_hotkey(" control + SHIFT+ s ").unwrap();
    assert_eq!(hk.key, Code::KeyS);
    assert_eq!(hk.mods, held(true, true));
    assert_eq!(format_hotkey_string(" control + SHIFT+ s "), "Ctrl+Shift+S");
    assert_eq!(parse_hotkey("Ctrl+Nope"), Err(HotkeyError::UnknownKey { part: 1 }));
    assert_eq!(parse_hotkey("Ctrl+Shift"), Err(HotkeyError::NoKey));
    let all = Modifiers::empty()
        .with(Modifier::Ctrl, true)
        .with(Modifier::Alt, true)
        .with(Modifier::Shift, true)
        .with(Modifier::Win, true);
    assert_eq!(all.mask(), MOD_CTRL | MOD_ALT | MOD_SHIFT | MOD_WIN);
}

#[test]
fn keys_have_virtual_codes() {
    assert_eq!(code_to_vk(Code::KeyA), 0x41);
    assert_eq!(code_to_vk(Code::PrintScreen), 0x2C);
    assert_eq!(code_to_vk(Code::Numpad5), 0x65);
    assert_eq!(parse_key_code("printscreen"), parse_key_code("PrintScreen"));
    assert_eq!(parse_key_code("nope"), None);
    let b = hotkey_to_hook_binding(&parse_hotkey("Ctrl+Shift+S").unwrap());
    assert_eq!(b, HookBinding { vk: 0x53, mods: MOD_CTRL | MOD_SHIFT });
    assert_eq!(HookBinding::of_key(b.key()), b);
}

#[test]
fn a_bare_letter_is_risky() {
    assert!(is_risky_bare("S"));
    assert!(!is_risky_bare("Ctrl+S"));
    assert!(!is_risky_bare("F12"));
    assert!(!is_risky_bare("PrintScreen"));
}

#[test]
fn hotkeys_are_registered_for_tasks() {
    let mut hm = HotkeyManager::new();
    hm.try_register("shot", "PrintScreen");
    hm.try_register("bad", "Ctrl+Nope");
    hm.try_register("risky", "S");
    assert!(hm.has_errors());
    assert_eq!(hm.registered_task_ids(), vec!["shot"]);
    let errors = hm.take_errors();
    assert_eq!(errors.len(), 2);
    assert_eq!(errors[0].task_id, "bad");
    assert_eq!(errors[1].task_id, "risky");
    assert!(!hm.has_errors());
    let table = hm.flush_to_hook();
    assert_eq!(table.get(HookBinding { vk: 0x2C, mods: 0 }.key()), Some("shot".to_string()));
    hm.unregister_all();
    assert!(hm.registered_task_ids().is_empty());
}

// ---- the keyboard hook ------------------------------------------------------------

#[test]
fn numpad_normalization_remaps_only_non_extended() {
    assert_eq!(normalize_numpad_vk(0x0C, false), 0x65);
    assert_eq!(normalize_numpad_vk(0x24, false), 0x67);
    assert_eq!(normalize_numpad_vk(0x26, false), 0x68);
    assert_eq!(normalize_numpad_vk(0x2D, false), 0x60);
    assert_eq!(normalize_numpad_vk(0x2E, false), 0x6E);
    assert_eq!(normalize_numpad_vk(0x24, true), 0x24);
    assert_eq!(normalize_numpad_vk(0x26, true), 0x26);
    assert_eq!(normalize_numpad_vk(0x41, false), 0x41);
    assert_eq!(normalize_numpad_vk(0x2C, false), 0x2C);
}

#[test]
fn modifier_bit_recognized() {
    assert_eq!(modifier_bit(0x10), Some(MOD_SHIFT));
    assert_eq!(modifier_bit(0xA2), Some(MOD_CTRL));
    assert_eq!(modifier_bit(0x5B), Some(MOD_WIN));
    assert_eq!(modifier_bit(0x12), Some(MOD_ALT));
    assert_eq!(modifier_bit(0x41), None);
    assert_eq!(modifier_bit(0x2C), None);
}

fn print_screen() -> TaskTable {
    let mut map = TaskTable::new();
    map.insert(HookBinding { vk: 0x2C, mods: 0 }.key(), "task-printscreen".to_string());
    map
}

#[test]
fn bindings_set_and_read() {
    let mut hook = HookState::new();
    hook.set_bindings(print_screen());
    let bindings = hook.registered_bindings();
    assert_eq!(bindings.len(), 1);
    assert_eq!(bindings[0].0.vk, 0x2C);
    assert_eq!(bindings[0].1, "task-printscreen");
}

#[test]
fn enabled_toggle_roundtrips() {
    let mut hook = HookState::new();
    hook.set_enabled(false);
    assert!(!hook.current_enabled());
    hook.set_enabled(true);
    assert!(hook.current_enabled());
}

fn ready_hook() -> HookState {
    let mut hook = HookState::new();
    hook.init();
    hook.set_installed(true, Modifiers::empty());
    hook.set_enabled(true);
    hook.set_bindings(print_screen());
    hook
}

#[test]
fn a_bound_key_fires_its_task() {
    let mut hook = ready_hook();
    match hook.hook_proc(0, KeyMessage::Down, 0x2C, true) {
        HookVerdict::Tell { event: HookEvent::Fire { task_id } } => {
            assert_eq!(task_id, "task-printscreen")
        }
        _ => panic!("the key is bound"),
    }
    hook.told(true);
    assert!(matches!(hook.hook_proc(0, KeyMessage::Down, 0x41, false), HookVerdict::Pass));
    // with a modifier it is another key
    assert!(matches!(hook.hook_proc(0, KeyMessage::Down, 0xA2, false), HookVerdict::Pass));
    assert!(matches!(hook.hook_proc(0, KeyMessage::Down, 0x2C, true), HookVerdict::Pass));
    assert!(matches!(hook.hook_proc(0, KeyMessage::Up, 0xA2, false), HookVerdict::Pass));
    assert!(matches!(
        hook.hook_proc(0, KeyMessage::Down, 0x2C, true),
        HookVerdict::Tell { .. }
    ));
    let t = hook.snapshot_telemetry();
    assert_eq!(t.registered_count, 1);
    assert_eq!(t.dispatch_sent, 1);
    assert_eq!(t.last_vk, 0x2C);
}

#[test]
fn a_switched_off_hook_fires_nothing() {
    let mut hook = ready_hook();
    hook.set_enabled(false);
    assert!(matches!(hook.hook_proc(0, KeyMessage::Down, 0x2C, true), HookVerdict::Pass));
}

#[test]
fn the_next_key_is_captured_once() {
    let mut hook = ready_hook();
    hook.begin_capture();
    assert!(hook.is_capturing());
    // a modifier alone is not captured
    hook.hook_proc(0, KeyMessage::Down, 0xA2, false);
    assert!(hook.is_capturing());
    match hook.hook_proc(0, KeyMessage::Down, 0x41, false) {
        HookVerdict::Tell { event: HookEvent::Captured { vk, mods } } => {
            assert_eq!((vk, mods), (0x41, MOD_CTRL))
        }
        _ => panic!("the key is captured"),
    }
    assert!(!hook.is_capturing());
    hook.begin_capture();
    hook.cancel_capture();
    assert!(!hook.is_capturing());
}

#[test]
fn side_buttons_of_the_mouse() {
    let mut hook = ready_hook();
    let mut table = TaskTable::new();
    table.insert(HookBinding { vk: 0x05, mods: 0 }.key(), "back".to_string());
    hook.set_bindings(table);
    match hook.mouse_hook_proc(0, 0x20b, 1) {
        HookVerdict::Tell { event: HookEvent::Fire { task_id } } => assert_eq!(task_id, "back"),
        _ => panic!("the button is bound"),
    }
    hook.told(false);
    assert!(matches!(hook.mouse_hook_proc(0, 0xab, 2), HookVerdict::Pass));
    assert!(matches!(hook.mouse_hook_proc(0, 0x20c, 1), HookVerdict::Pass));
    assert!(matches!(hook.mouse_hook_proc(-1, 0x20b, 1), HookVerdict::Pass));
    let t = hook.snapshot_telemetry();
    assert_eq!((t.calls_total, t.keydown_calls, t.matched_calls), (4, 2, 1));
    assert_eq!((t.dispatch_sent, t.dispatch_dropped, t.last_vk), (0, 1, 0x06));
}

#[test]
fn messages_of_the_system() {
    assert_eq!(key_message(0x100), KeyMessage::Down);
    assert_eq!(key_message(0x104), KeyMessage::Down);
    assert_eq!(key_message(0x101), KeyMessage::Up);
    assert_eq!(key_message(0x105), KeyMessage::Up);
    assert_eq!(key_message(0x200), KeyMessage::Other);
}

// ---- devices ----------------------------------------------------------------------

fn inotify_record(name: &str, pad: usize) -> Vec<u8> {
    let mut record = vec![0u8; 16];
    record[12..16].copy_from_slice(&((name.len() + pad) as u32).to_ne_bytes());
    record.extend_from_slice(name.as_bytes());
    record.extend(vec![0u8; pad]);
    record
}

#[test]
fn parses_padded_inotify_records() {
    let mut buf = inotify_record("event27", 9);
    buf.extend(inotify_record("mouse3", 2));
    assert_eq!(parse_inotify_names(&buf), vec!["event27", "mouse3"]);
}

#[test]
fn ignores_nameless_and_truncated_records() {
    let mut buf = inotify_record("", 0);
    buf.extend(inotify_record("event5", 2));
    buf.truncate(buf.len() - 1);
    assert_eq!(parse_inotify_names(&buf), Vec::<String>::new());
}

#[test]
fn parses_bare_mouse_buttons() {
    assert_eq!(parse_mouse_binding("Mouse4"), Some((0, BTN_SIDE)));
    assert_eq!(parse_mouse_binding("Mouse5"), Some((0, BTN_EXTRA)));
}

#[test]
fn parses_modified_mouse_button() {
    assert_eq!(parse_mouse_binding("Ctrl+Mouse5"), Some((MOD_CTRL, BTN_EXTRA)));
}

#[test]
fn normalizes_back_and_forward_button_codes() {
    assert_eq!(normalize_button(BTN_SIDE), Some(BTN_SIDE));
    assert_eq!(normalize_button(BTN_BACK), Some(BTN_SIDE));
    assert_eq!(normalize_button(BTN_EXTRA), Some(BTN_EXTRA));
    assert_eq!(normalize_button(BTN_FORWARD), Some(BTN_EXTRA));
}

#[test]
fn fires_mouse_bindings_on_release() {
    assert!(!binding_fires_on_edge(BTN_SIDE, 1));
    assert!(binding_fires_on_edge(BTN_SIDE, 0));
    assert!(!binding_fires_on_edge(BTN_BACK, 1));
    assert!(binding_fires_on_edge(BTN_BACK, 0));
}

#[test]
fn fires_keyboard_bindings_on_press() {
    assert!(binding_fires_on_edge(99, 1));
    assert!(!binding_fires_on_edge(99, 0));
}

#[test]
fn ignores_keyboard_hotkeys() {
    assert_eq!(parse_mouse_binding("Ctrl+Shift+S"), None);
    assert_eq!(parse_mouse_binding("F12"), None);
}

#[test]
fn parses_wayland_keyboard_bindings() {
    assert_eq!(parse_evdev_binding("Ctrl+Shift+G"), Some((MOD_CTRL | MOD_SHIFT, 34)));
    assert_eq!(parse_evdev_binding("F12"), Some((0, 88)));
    assert_eq!(parse_evdev_binding("PrintScreen"), Some((0, 99)));
    assert_eq!(parse_evdev_binding("NumpadEnter"), Some((0, 96)));
}

#[test]
fn rejects_unknown_or_multiple_keys() {
    assert_eq!(parse_evdev_binding("Ctrl+Nope"), None);
    assert_eq!(parse_evdev_binding("Ctrl+G+H"), None);
}

#[test]
fn records_of_a_device() {
    let mut raw = [0u8; 24];
    raw[16..18].copy_from_slice(&1u16.to_ne_bytes());
    raw[18..20].copy_from_slice(&99u16.to_ne_bytes());
    raw[20..24].copy_from_slice(&1i32.to_ne_bytes());
    let r = decode_record(&raw);
    assert_eq!(r, InputRecord { kind: EV_KEY, code: 99, value: 1 });
    let mut mods = Modifiers::empty();
    // the left control key
    assert_eq!(mod_bit(29), Some(MOD_CTRL));
    assert_eq!(take_record(&mut mods, InputRecord { kind: EV_KEY, code: 29, value: 1 }), None);
    assert!(mods.ctrl);
    assert_eq!(take_record(&mut mods, r), Some(99));
    assert_eq!(take_record(&mut mods, InputRecord { kind: EV_KEY, code: 29, value: 0 }), None);
    assert!(!mods.ctrl);
    assert_eq!(take_record(&mut mods, InputRecord { kind: 2, code: 99, value: 1 }), None);
}

#[test]
fn a_task_fires_again_only_after_a_while() {
    let mut table = TaskTable::new();
    table.insert(binding_key(0, 99), "shot".to_string());
    let mut log = FireLog::new();
    let none = Modifiers::empty();
    let ms = 1_000_000u64;
    assert_eq!(
        dispatch(false, &table, none, 99, &mut log, 1000 * ms),
        Some("shot".to_string())
    );
    assert_eq!(dispatch(false, &table, none, 99, &mut log, 1250 * ms), None);
    assert_eq!(
        dispatch(false, &table, none, 99, &mut log, 1251 * ms),
        Some("shot".to_string())
    );
    assert_eq!(dispatch(true, &table, none, 99, &mut log, 9000 * ms), None);
    assert_eq!(dispatch(false, &table, none, 98, &mut log, 9000 * ms), None);
}

#[test]
fn devices_come_and_go() {
    let mut devices = live();
    assert!(devices.insert("/dev/input/event3"));
    assert!(!devices.insert("/dev/input/event3"));
    devices.remove("/dev/input/event3");
    assert!(devices.insert("/dev/input/event3"));
    assert_eq!(device_path("event3"), Some("/dev/input/event3".to_string()));
    assert_eq!(device_path("mouse3"), None);
    assert!(open_delay_ms(0).is_some());
    assert!(open_delay_ms(1000).is_none());
}

// ---- the desktop's shortcuts ------------------------------------------------------

fn binding(id: &str, trigger: Option<&str>) -> PortalBinding {
    PortalBinding {
        task_id: id.to_string(),
        label: "Region".to_string(),
        trigger: trigger.map(|t| t.to_string()),
    }
}

fn shortcut(id: &str, trigger: Option<&str>) -> Shortcut {
    Shortcut { id: id.to_string(), trigger: trigger.map(|t| t.to_string()) }
}

fn bindings(step: PortalStep) -> Vec<(String, Option<String>)> {
    match step {
        PortalStep::Bind { list } => {
            list.into_iter().map(|b| (b.task_id, b.trigger)).collect()
        }
        other => panic!("{:?}", other),
    }
}

fn with_session(wanted: Vec<PortalBinding>) -> PortalShortcuts {
    let mut p = PortalShortcuts::new();
    assert!(matches!(p.sync(wanted), PortalStep::Open));
    assert!(matches!(p.opened(0, Some("/s".to_string())), Ok(PortalStep::List)));
    assert_eq!(p.session.as_deref(), Some("/s"));
    p
}

#[test]
fn shortcuts_are_bound_only_when_they_change() {
    let known = [shortcut("a", Some("Ctrl+G"))];
    let told = [binding("a", Some("CTRL+g"))];
    let mut p = with_session(vec![binding("a", Some("CTRL+g"))]);
    assert!(matches!(p.listed(0, &known, &told), PortalStep::Done));
    assert_eq!(p.effective_triggers()[0].text, "Ctrl+G");
    assert_eq!(p.phase, PortalPhase::Idle);

    // the record differs, the desktop knows nothing, or does not say
    let wanted = vec![("a".to_string(), Some("CTRL+g".to_string()))];
    assert!(matches!(p.sync(vec![binding("a", Some("CTRL+g"))]), PortalStep::List));
    assert_eq!(bindings(p.listed(0, &known, &[binding("a", Some("CTRL+h"))])), wanted);
    let mut p = with_session(vec![binding("a", Some("CTRL+g"))]);
    assert_eq!(bindings(p.listed(0, &[], &told)), wanted);
    let mut p = with_session(vec![binding("a", Some("CTRL+g"))]);
    assert_eq!(bindings(p.listed(1, &known, &told)), wanted);
}

#[test]
fn an_empty_sync_clears_the_triggers() {
    let mut p = with_session(vec![binding("a", None)]);
    p.listed(0, &[], &[]);
    let bound = p.answered(0, &[shortcut("a", Some("x"))]);
    match bound {
        Ok(PortalStep::Store { record }) => assert_eq!(record[0].task_id, "a"),
        other => panic!("{:?}", other),
    }
    assert_eq!(p.effective_triggers().len(), 1);
    assert!(matches!(p.sync(vec![]), PortalStep::Done));
    assert!(p.effective_triggers().is_empty());
    assert_eq!(p.rebind().unwrap_err(), PortalFault::NothingConfigured);
    assert!(matches!(p.closed(), PortalStep::Done));
    assert!(p.session.is_none());
}

#[test]
fn a_rebind_forces_the_last_list() {
    let known = [shortcut("a", Some("Ctrl+G"))];
    let told = [binding("a", Some("CTRL+g"))];
    let mut p = with_session(vec![binding("a", Some("CTRL+g"))]);
    p.listed(0, &known, &told);
    assert!(matches!(p.rebind(), Ok(PortalStep::List)));
    let wanted = vec![("a".to_string(), Some("CTRL+g".to_string()))];
    assert_eq!(bindings(p.listed(0, &known, &told)), wanted);
    assert_eq!(p.answered(1, &[]).unwrap_err(), PortalFault::NotApproved);
    assert_eq!(p.effective_triggers()[0].text, "Ctrl+G");
    p.rebind().unwrap();
    p.listed(0, &known, &told);
    assert!(p.answered(0, &[shortcut("a", Some("Meta+G"))]).is_ok());
    assert_eq!(p.effective_triggers()[0].text, "Meta+G");
    assert!(matches!(p.answered(0, &[]), Ok(PortalStep::Ignore)));
    assert!(matches!(p.listed(0, &[], &[]), PortalStep::Ignore));
    assert!(matches!(p.opened(0, None), Ok(PortalStep::Ignore)));
}

#[test]
fn a_closed_session_is_opened_again() {
    let mut p = with_session(vec![binding("a", None)]);
    p.failed();
    assert_eq!(p.phase, PortalPhase::Idle);
    assert!(matches!(p.closed(), PortalStep::Open));
    assert!(p.session.is_none());
    assert_eq!(p.opened(1, None).unwrap_err(), PortalFault::SessionDenied);
    assert!(matches!(p.rebind(), Ok(PortalStep::Open)));
    assert_eq!(p.opened(0, None).unwrap_err(), PortalFault::NoSession);
}

#[test]
fn the_desktop_answers() {
    assert!(available(Some(1)));
    assert!(!available(None));
    let mut p = with_session(vec![binding("a", None)]);
    p.listed(0, &[], &[]);
    p.answered(0, &[shortcut("a", None)]).unwrap();
    assert_eq!(p.effective_triggers()[0].text, "");
    assert_eq!(failures(&[binding("a", None)], "why")[0].text, "why");
    assert_eq!(
        record_path(Some("/c"), '/'),
        Some("/c/portal-shortcuts.json".to_string())
    );
    let mut log = FireLog::new();
    assert!(on_activated(true, false, &mut log, "a", 1_000_000_000));
    assert!(!on_activated(true, false, &mut log, "a", 1_000_000_001));
    assert!(!on_activated(false, false, &mut log, "b", 1_000_000_000));
    assert!(!on_activated(true, true, &mut log, "b", 1_000_000_000));
}

#[test]
fn kernel_numbers_have_either_order() {
    let mut raw = [0u8; 24];
    raw[17] = 1;
    raw[19] = 99;
    raw[20..24].copy_from_slice(&[0xFF, 0xFF, 0xFF, 0xFE]);
    assert_eq!(record_in(&raw, false), InputRecord { kind: EV_KEY, code: 99, value: -2 });
    assert_eq!(
        record_in(&raw, true),
        InputRecord { kind: 256, code: 99 * 256, value: -16_777_217 }
    );
    let mut buf = vec![0u8; 16];
    buf[15] = 4;
    buf.extend_from_slice(b"a\0\0\0");
    assert_eq!(inotify_names(&buf, false), vec!["a"]);
    assert!(inotify_names(&buf, true).is_empty());
}

#[test]
fn key_tables_agree() {
    let names = ["A", "9", "F5", "F24", "ESC", "ESCAPE", "PRTSC", "KP5", "NUM5", "ENTER", "KPENTER"];
    for s in names {
        let c = keyboard_code(s).unwrap();
        assert!(mod_bit(c).is_none() && normalize_button(c).is_none());
        for t in names {
            let same = parse_key_code(s).unwrap() == parse_key_code(t).unwrap();
            assert_eq!(keyboard_code(s) == keyboard_code(t), same);
        }
    }
}
